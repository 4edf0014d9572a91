//! The chunk generator: a pure, total function from a chunk coordinate and
//! that chunk's noise samples to a fully populated voxel grid. Three ordered
//! passes — fill terrain per column, carve caves and enrich stone, then
//! decorate with trees and tall grass — are specified cell by cell, and the
//! generator is proved to realize exactly that specification, which makes
//! generation provably deterministic in its inputs.

use vstd::prelude::*;

use crate::block::{spec_id, BlockType};
use crate::chunk::{spec_index, Chunk, CHUNK_SIZE, CHUNK_VOLUME};
use crate::coords::ChunkPos;
use crate::samples::{
    samples_wf, spec_col, spec_determine_ore, spec_is_cave, determine_ore, is_cave, OreSamples,
    TerrainSamples, CHUNK_AREA, SEA_LEVEL,
};

verus! {

/// Largest chunk coordinate magnitude the generator accepts; keeps world
/// cell coordinates comfortably inside `i32`.
pub const COORD_LIMIT: i32 = 67108863;

/// The generator accepts chunk coordinates whose world cells fit in `i32`.
pub open spec fn coord_in_bounds(c: ChunkPos) -> bool {
    -COORD_LIMIT <= c.x <= COORD_LIMIT && -COORD_LIMIT <= c.y <= COORD_LIMIT && -COORD_LIMIT
        <= c.z <= COORD_LIMIT
}

/// Check the generator's coordinate bound, so unverified callers can
/// validate a coordinate first.
pub fn coord_bounds_ok(c: ChunkPos) -> (r: bool)
    ensures
        r == coord_in_bounds(c),
{
    -COORD_LIMIT <= c.x && c.x <= COORD_LIMIT && -COORD_LIMIT <= c.y && c.y <= COORD_LIMIT
        && -COORD_LIMIT <= c.z && c.z <= COORD_LIMIT
}

/// Fill pass, per cell: bedrock at world height zero, air below it, water
/// above the terrain up to sea level, the biome's surface and sub-surface
/// materials in the top four terrain cells, stone underneath.
pub open spec fn spec_fill_cell(wy: int, th: int, desert: bool) -> BlockType {
    if wy < 0 {
        BlockType::Air
    } else if wy == 0 {
        BlockType::Bedrock
    } else if wy > th {
        if wy <= SEA_LEVEL {
            BlockType::Water
        } else {
            BlockType::Air
        }
    } else if wy == th && th >= SEA_LEVEL {
        if desert {
            BlockType::Sand
        } else {
            BlockType::Grass
        }
    } else if wy > th - 4 && wy < th {
        if desert {
            BlockType::Sandstone
        } else {
            BlockType::Dirt
        }
    } else if wy == th && th < SEA_LEVEL {
        if desert {
            BlockType::Sand
        } else {
            BlockType::Dirt
        }
    } else {
        BlockType::Stone
    }
}

/// The materials a cave may carve through.
pub open spec fn spec_carveable(b: BlockType) -> bool {
    b is Stone || b is Dirt || b is Grass || b is Sand || b is Sandstone || b is Gravel
}

/// Carve-and-enrich pass, per cell: caves replace carveable material with
/// air; remaining stone may become gravel (gravel wins over ore) or an ore;
/// sand and dirt in the band just below sea level may become clay.
pub open spec fn spec_carved_cell(c: ChunkPos, s: TerrainSamples, x: int, y: int, z: int)
    -> BlockType {
    let wy = c.y * 16 + y;
    let col = spec_col(x, z);
    let th = s.height@[col] as int;
    let desert = s.desert@[col];
    let b = spec_fill_cell(wy, th, desert);
    let i = spec_index(x, y, z);
    let cave = spec_is_cave(s.cheese@[i], s.spaghetti@[i], s.noodle@[i], wy, th);
    let ore = spec_determine_ore(
        OreSamples {
            diamond: s.ore_diamond@[i],
            gold: s.ore_gold@[i],
            iron: s.ore_iron@[i],
            coal: s.ore_coal@[i],
        },
        wy,
    );
    if spec_carveable(b) && cave {
        BlockType::Air
    } else if b is Stone && wy < 60 && s.gravel@[i] {
        BlockType::Gravel
    } else if b is Stone && ore is Some {
        ore->Some_0
    } else if (b is Sand || b is Dirt) && 60 <= wy <= SEA_LEVEL && s.clay@[col] {
        BlockType::Clay
    } else {
        b
    }
}

/// The offset from a world axis coordinate to its tree column: tree columns
/// lie at world coordinates congruent to 3 modulo 7, one chosen cell per
/// 7x7 grid cell, and a canopy reaches at most 2 cells.
pub open spec fn spec_tree_dx(w: int) -> Option<int> {
    let d = (w - 3) % 7;
    if d == 0 {
        Some(0)
    } else if d == 1 {
        Some(-1)
    } else if d == 2 {
        Some(-2)
    } else if d == 5 {
        Some(2)
    } else if d == 6 {
        Some(1)
    } else {
        None
    }
}

/// Trunk height of the tree in a column: birch picks 5 to 7, oak 5 or 6,
/// driven by the grid cell's noise roll.
pub open spec fn spec_trunk_height(s: TerrainSamples, col: int) -> int {
    5 + (s.tree_roll@[col] as int) % (if s.birch@[col] {
        3int
    } else {
        2int
    })
}

/// Whether a column grows a tree: plains biome at or above sea level, the
/// 7x7 grid cell passed the density gate, the surface lies in this chunk,
/// and the carved surface cell is actually grass.
pub open spec fn spec_col_has_tree(c: ChunkPos, s: TerrainSamples, tx: int, tz: int) -> bool {
    let col = spec_col(tx, tz);
    let th = s.height@[col] as int;
    let ls = th - c.y * 16;
    &&& !s.desert@[col]
    &&& th >= SEA_LEVEL
    &&& s.tree_gate@[col]
    &&& 0 <= ls < 16
    &&& spec_carved_cell(c, s, tx, ls, tz) is Grass
}

/// Whether a cell at canopy offset (dx, dz) and height offset `off` above
/// the surface holds leaves: within the canopy band and radius, corners
/// clipped for a rounder shape, and never the trunk column inside the trunk.
pub open spec fn spec_in_canopy(birch: bool, h: int, off: int, dx: int, dz: int) -> bool {
    let maxr = if birch {
        1int
    } else {
        2int
    };
    let r = if off >= h {
        1int
    } else {
        maxr
    };
    let adx = if dx >= 0 {
        dx
    } else {
        -dx
    };
    let adz = if dz >= 0 {
        dz
    } else {
        -dz
    };
    &&& h - 2 <= off <= h + 1
    &&& -r <= dx <= r
    &&& -r <= dz <= r
    &&& !(adx == r && adz == r)
    &&& !(dx == 0 && dz == 0 && off <= h)
}

/// Decoration pass, per cell: if the cell lies in the trunk or canopy of
/// its (unique) candidate tree column, it becomes log, or leaves where the
/// carved cell was air; otherwise it keeps its carved value. Trees are
/// clipped to the generating chunk: columns near the horizontal edge grow
/// no tree, and trunk or canopy cells outside the chunk's vertical span are
/// simply not this chunk's cells.
pub open spec fn spec_tree_cell(c: ChunkPos, s: TerrainSamples, x: int, y: int, z: int, pre: BlockType)
    -> BlockType {
    let wx = c.x * 16 + x;
    let wy = c.y * 16 + y;
    let wz = c.z * 16 + z;
    if spec_tree_dx(wx) is Some && spec_tree_dx(wz) is Some {
        let tx = x + spec_tree_dx(wx)->Some_0;
        let tz = z + spec_tree_dx(wz)->Some_0;
        if 2 <= tx <= 13 && 2 <= tz <= 13 && spec_col_has_tree(c, s, tx, tz) {
            let col = spec_col(tx, tz);
            let th = s.height@[col] as int;
            let h = spec_trunk_height(s, col);
            let birch = s.birch@[col];
            let off = wy - th;
            if x == tx && z == tz && 1 <= off <= h {
                if birch {
                    BlockType::BirchLog
                } else {
                    BlockType::OakLog
                }
            } else if spec_in_canopy(birch, h, off, x - tx, z - tz) && pre is Air {
                if birch {
                    BlockType::BirchLeaves
                } else {
                    BlockType::OakLeaves
                }
            } else {
                pre
            }
        } else {
            pre
        }
    } else {
        pre
    }
}

/// Fill, carve and tree passes composed for one cell.
pub open spec fn spec_decorated_cell(c: ChunkPos, s: TerrainSamples, x: int, y: int, z: int)
    -> BlockType {
    spec_tree_cell(c, s, x, y, z, spec_carved_cell(c, s, x, y, z))
}

/// All passes composed for one cell: after trees, exposed sunlit plains
/// grass may sprout tall grass in the cell directly above the surface.
#[verifier::opaque]
pub open spec fn spec_gen_cell(c: ChunkPos, s: TerrainSamples, x: int, y: int, z: int)
    -> BlockType {
    let col = spec_col(x, z);
    let th = s.height@[col] as int;
    let ls = th - c.y * 16;
    let la = th + 1 - c.y * 16;
    let pre = spec_decorated_cell(c, s, x, y, z);
    if !s.desert@[col] && th >= SEA_LEVEL && 0 <= la < 16 && 0 <= ls < 16 && y == la
        && spec_decorated_cell(c, s, x, ls, z) is Grass && pre is Air && s.grass@[col] {
        BlockType::TallGrass
    } else {
        pre
    }
}

/// The whole generated chunk, cell by cell, in y-major order.
pub open spec fn spec_generate(c: ChunkPos, s: TerrainSamples) -> Seq<u8> {
    Seq::new(
        CHUNK_VOLUME as nat,
        |i: int| spec_id(spec_gen_cell(c, s, i % 16, i / 256, (i % 256) / 16)),
    )
}

/// Fill pass for one cell.
fn fill_cell(wy: i64, th: i32, desert: bool) -> (r: BlockType)
    requires
        -68719476736 <= wy <= 68719476736,
    ensures
        r == spec_fill_cell(wy as int, th as int, desert),
{
    let th_w = th as i64;
    if wy < 0 {
        BlockType::Air
    } else if wy == 0 {
        BlockType::Bedrock
    } else if wy > th_w {
        if wy <= SEA_LEVEL as i64 {
            BlockType::Water
        } else {
            BlockType::Air
        }
    } else if wy == th_w && th_w >= SEA_LEVEL as i64 {
        if desert {
            BlockType::Sand
        } else {
            BlockType::Grass
        }
    } else if wy > th_w - 4 && wy < th_w {
        if desert {
            BlockType::Sandstone
        } else {
            BlockType::Dirt
        }
    } else if wy == th_w && th_w < SEA_LEVEL as i64 {
        if desert {
            BlockType::Sand
        } else {
            BlockType::Dirt
        }
    } else {
        BlockType::Stone
    }
}

/// Carve-and-enrich pass for one cell.
fn carved_cell(c: ChunkPos, s: &TerrainSamples, x: usize, y: usize, z: usize) -> (r: BlockType)
    requires
        samples_wf(*s),
        coord_in_bounds(c),
        x < CHUNK_SIZE,
        y < CHUNK_SIZE,
        z < CHUNK_SIZE,
    ensures
        r == spec_carved_cell(c, *s, x as int, y as int, z as int),
{
    let wy32: i32 = c.y * 16 + y as i32;
    let wy: i64 = wy32 as i64;
    let col = z * CHUNK_SIZE + x;
    let th = s.height[col];
    let desert = s.desert[col];
    let b = fill_cell(wy, th, desert);
    let i = Chunk::index(x, y, z);
    let carveable = match b {
        BlockType::Stone | BlockType::Dirt | BlockType::Grass | BlockType::Sand
        | BlockType::Sandstone | BlockType::Gravel => true,
        _ => false,
    };
    let cave = is_cave(s.cheese[i], s.spaghetti[i], s.noodle[i], wy32, th);
    let ore = determine_ore(
        OreSamples {
            diamond: s.ore_diamond[i],
            gold: s.ore_gold[i],
            iron: s.ore_iron[i],
            coal: s.ore_coal[i],
        },
        wy32,
    );
    if carveable && cave {
        BlockType::Air
    } else if matches!(b, BlockType::Stone) && wy < 60 && s.gravel[i] {
        BlockType::Gravel
    } else if matches!(b, BlockType::Stone) && ore.is_some() {
        ore.unwrap()
    } else if matches!(b, BlockType::Sand | BlockType::Dirt) && 60 <= wy && wy <= SEA_LEVEL as i64
        && s.clay[col] {
        BlockType::Clay
    } else {
        b
    }
}

/// Offset from a world axis coordinate to its tree column, when one is
/// within canopy reach.
fn tree_dx(w: i32) -> (r: Option<i32>)
    requires
        -2000000000 <= w <= 2000000000,
    ensures
        r is Some <==> spec_tree_dx(w as int) is Some,
        r is Some ==> r->Some_0 == spec_tree_dx(w as int)->Some_0 && -2 <= r->Some_0 <= 2,
{
    let d = match (w - 3).checked_rem_euclid(7) {
        Some(v) => v,
        None => 0,
    };
    if d == 0 {
        Some(0)
    } else if d == 1 {
        Some(-1)
    } else if d == 2 {
        Some(-2)
    } else if d == 5 {
        Some(2)
    } else if d == 6 {
        Some(1)
    } else {
        None
    }
}

/// Trunk height of the tree in a column.
fn trunk_height(s: &TerrainSamples, col: usize) -> (r: i32)
    requires
        samples_wf(*s),
        col < CHUNK_AREA,
    ensures
        r == spec_trunk_height(*s, col as int),
        5 <= r <= 7,
{
    let m: i32 = if s.birch[col] {
        3
    } else {
        2
    };
    let rem = match s.tree_roll[col].checked_rem_euclid(m) {
        Some(v) => v,
        None => 0,
    };
    5 + rem
}

/// Whether a column grows a tree.
fn col_has_tree(c: ChunkPos, s: &TerrainSamples, tx: usize, tz: usize) -> (r: bool)
    requires
        samples_wf(*s),
        coord_in_bounds(c),
        tx < CHUNK_SIZE,
        tz < CHUNK_SIZE,
    ensures
        r == spec_col_has_tree(c, *s, tx as int, tz as int),
{
    let col = tz * CHUNK_SIZE + tx;
    let th = s.height[col];
    let ls: i64 = th as i64 - c.y as i64 * 16;
    if s.desert[col] {
        return false;
    }
    if th < SEA_LEVEL {
        return false;
    }
    if !s.tree_gate[col] {
        return false;
    }
    if !(0 <= ls && ls < 16) {
        return false;
    }
    let g = carved_cell(c, s, tx, ls as usize, tz);
    matches!(g, BlockType::Grass)
}

/// Whether a cell offset lies in a tree's canopy.
fn in_canopy(birch: bool, h: i32, off: i64, dx: i64, dz: i64) -> (r: bool)
    requires
        5 <= h <= 7,
        -68719476736 <= off <= 68719476736,
        -16 <= dx <= 16,
        -16 <= dz <= 16,
    ensures
        r == spec_in_canopy(birch, h as int, off as int, dx as int, dz as int),
{
    let maxr: i64 = if birch {
        1
    } else {
        2
    };
    let r_: i64 = if off >= h as i64 {
        1
    } else {
        maxr
    };
    let adx = if dx >= 0 {
        dx
    } else {
        -dx
    };
    let adz = if dz >= 0 {
        dz
    } else {
        -dz
    };
    let h_w = h as i64;
    h_w - 2 <= off && off <= h_w + 1 && -r_ <= dx && dx <= r_ && -r_ <= dz && dz <= r_ && !(adx
        == r_ && adz == r_) && !(dx == 0 && dz == 0 && off <= h_w)
}

/// Decoration pass for one cell: trees.
fn tree_cell(c: ChunkPos, s: &TerrainSamples, x: usize, y: usize, z: usize, pre: BlockType) -> (r:
    BlockType)
    requires
        samples_wf(*s),
        coord_in_bounds(c),
        x < CHUNK_SIZE,
        y < CHUNK_SIZE,
        z < CHUNK_SIZE,
    ensures
        r == spec_tree_cell(c, *s, x as int, y as int, z as int, pre),
{
    let wx: i32 = c.x * 16 + x as i32;
    let wy: i32 = c.y * 16 + y as i32;
    let wz: i32 = c.z * 16 + z as i32;
    let dxo = tree_dx(wx);
    let dzo = tree_dx(wz);
    let (dx0, dz0) = match (dxo, dzo) {
        (Some(a), Some(b)) => (a, b),
        _ => {
            return pre;
        },
    };
    let txi: i32 = x as i32 + dx0;
    let tzi: i32 = z as i32 + dz0;
    if !(2 <= txi && txi <= 13 && 2 <= tzi && tzi <= 13) {
        return pre;
    }
    let tx = txi as usize;
    let tz = tzi as usize;
    if !col_has_tree(c, s, tx, tz) {
        return pre;
    }
    let col = tz * CHUNK_SIZE + tx;
    let th = s.height[col];
    let h = trunk_height(s, col);
    let birch = s.birch[col];
    let off: i64 = wy as i64 - th as i64;
    if x == tx && z == tz && 1 <= off && off <= h as i64 {
        if birch {
            BlockType::BirchLog
        } else {
            BlockType::OakLog
        }
    } else if in_canopy(birch, h, off, x as i64 - tx as i64, z as i64 - tz as i64) && matches!(
        pre,
        BlockType::Air,
    ) {
        if birch {
            BlockType::BirchLeaves
        } else {
            BlockType::OakLeaves
        }
    } else {
        pre
    }
}

/// Fill, carve and tree passes composed for one cell.
fn decorated_cell(c: ChunkPos, s: &TerrainSamples, x: usize, y: usize, z: usize) -> (r: BlockType)
    requires
        samples_wf(*s),
        coord_in_bounds(c),
        x < CHUNK_SIZE,
        y < CHUNK_SIZE,
        z < CHUNK_SIZE,
    ensures
        r == spec_decorated_cell(c, *s, x as int, y as int, z as int),
{
    let pre = carved_cell(c, s, x, y, z);
    tree_cell(c, s, x, y, z, pre)
}

/// All passes composed for one cell.
fn gen_cell(c: ChunkPos, s: &TerrainSamples, x: usize, y: usize, z: usize) -> (r: BlockType)
    requires
        samples_wf(*s),
        coord_in_bounds(c),
        x < CHUNK_SIZE,
        y < CHUNK_SIZE,
        z < CHUNK_SIZE,
    ensures
        r == spec_gen_cell(c, *s, x as int, y as int, z as int),
{
    proof {
        reveal(spec_gen_cell);
    }
    let col = z * CHUNK_SIZE + x;
    let th = s.height[col];
    let pre = decorated_cell(c, s, x, y, z);
    let ls: i64 = th as i64 - c.y as i64 * 16;
    let la: i64 = th as i64 + 1 - c.y as i64 * 16;
    if !s.desert[col] && th >= SEA_LEVEL && 0 <= la && la < 16 && 0 <= ls && ls < 16 && y as i64
        == la && matches!(pre, BlockType::Air) && s.grass[col] {
        let surf = decorated_cell(c, s, x, ls as usize, z);
        if matches!(surf, BlockType::Grass) {
            BlockType::TallGrass
        } else {
            pre
        }
    } else {
        pre
    }
}

/// Generate a complete chunk at a chunk coordinate from its noise samples:
/// pure and total, with every cell equal to the composed per-cell
/// specification — so generation is deterministic in the coordinate and
/// the samples.
#[verifier::rlimit(60)]
pub fn generate_chunk(c: ChunkPos, s: &TerrainSamples) -> (r: Chunk)
    requires
        samples_wf(*s),
        coord_in_bounds(c),
    ensures
        crate::chunk::chunk_wf(r),
        r@ == spec_generate(c, *s),
{
    let mut chunk = Chunk::new();
    let mut y: usize = 0;
    while y < CHUNK_SIZE
        invariant
            samples_wf(*s),
            coord_in_bounds(c),
            crate::chunk::chunk_wf(chunk),
            y <= CHUNK_SIZE,
            forall|jx: int, jy: int, jz: int|
                0 <= jx < 16 && 0 <= jy < 16 && 0 <= jz < 16 && spec_index(jx, jy, jz) < y * 256
                    ==> chunk@[spec_index(jx, jy, jz)] == spec_id(spec_gen_cell(c, *s, jx, jy, jz)),
        decreases CHUNK_SIZE - y,
    {
        let mut z: usize = 0;
        while z < CHUNK_SIZE
            invariant
                samples_wf(*s),
                coord_in_bounds(c),
                crate::chunk::chunk_wf(chunk),
                y < CHUNK_SIZE,
                z <= CHUNK_SIZE,
                forall|jx: int, jy: int, jz: int|
                    0 <= jx < 16 && 0 <= jy < 16 && 0 <= jz < 16 && spec_index(jx, jy, jz) < y
                        * 256 + z * 16 ==> chunk@[spec_index(jx, jy, jz)] == spec_id(
                        spec_gen_cell(c, *s, jx, jy, jz),
                    ),
            decreases CHUNK_SIZE - z,
        {
            let mut x: usize = 0;
            while x < CHUNK_SIZE
                invariant
                    samples_wf(*s),
                    coord_in_bounds(c),
                    crate::chunk::chunk_wf(chunk),
                    y < CHUNK_SIZE,
                    z < CHUNK_SIZE,
                    x <= CHUNK_SIZE,
                    forall|jx: int, jy: int, jz: int|
                        0 <= jx < 16 && 0 <= jy < 16 && 0 <= jz < 16 && spec_index(jx, jy, jz) < y
                            * 256 + z * 16 + x ==> chunk@[spec_index(jx, jy, jz)] == spec_id(
                            spec_gen_cell(c, *s, jx, jy, jz),
                        ),
                decreases CHUNK_SIZE - x,
            {
                let b = gen_cell(c, s, x, y, z);
                chunk.set(x, y, z, b);
                x += 1;
            }
            z += 1;
        }
        y += 1;
    }
    proof {
        assert forall|i: int| 0 <= i < CHUNK_VOLUME implies chunk@[i] == spec_generate(c, *s)[i] by {
            let jx = i % 16;
            let jz = (i % 256) / 16;
            let jy = i / 256;
            assert(spec_index(jx, jy, jz) == i) by (nonlinear_arith)
                requires 0 <= i < 4096, jx == i % 16, jz == (i % 256) / 16, jy == i / 256;
            assert(0 <= jx < 16 && 0 <= jy < 16 && 0 <= jz < 16) by (nonlinear_arith)
                requires 0 <= i < 4096, jx == i % 16, jz == (i % 256) / 16, jy == i / 256;
        }
        assert(chunk@ =~= spec_generate(c, *s));
    }
    chunk
}

/// Determinism: generation is a function of the chunk coordinate and the
/// sample set alone — two chunks generated from the same inputs hold
/// byte-identical contents at every one of their 4096 cells.
pub proof fn lemma_generate_deterministic(c: ChunkPos, s: TerrainSamples, r1: Seq<u8>, r2: Seq<u8>)
    requires
        r1 == spec_generate(c, s),
        r2 == spec_generate(c, s),
    ensures
        r1 == r2,
        forall|i: int| 0 <= i < CHUNK_VOLUME ==> r1[i] == r2[i],
{
}


/// Rebuild a chunk from a persisted payload when one is present and
/// decodes, else generate it afresh from the coordinate's samples: a
/// missing payload and a corrupt one fall back identically to procedural
/// regeneration.
pub fn chunk_from_payload_or_generate(
    payload: Option<&Vec<u8>>,
    c: ChunkPos,
    s: &TerrainSamples,
) -> (r: Chunk)
    requires
        samples_wf(*s),
        coord_in_bounds(c),
    ensures
        crate::chunk::chunk_wf(r),
        match payload {
            Some(d) => if crate::codec::spec_decode_payload(d@) is Some {
                r@ == crate::codec::spec_decode_payload(d@)->Some_0
            } else {
                r@ == spec_generate(c, *s)
            },
            None => r@ == spec_generate(c, *s),
        },
{
    match payload {
        Some(d) => match crate::codec::decode_chunk_payload(d) {
            Some(ch) => ch,
            None => generate_chunk(c, s),
        },
        None => generate_chunk(c, s),
    }
}

} // verus!
