//! Greedy mesh construction with face culling. Cube faces are swept per
//! direction and slice into 16x16 visibility masks, greedy-merged into
//! rectangles (transparent blocks always stay 1x1), and emitted as quads;
//! non-cube decorations become double-sided cross billboards. All geometry
//! is exact integer data: positions in hundredths of a cell and texture
//! coordinates in atlas-tile units, so a renderer only divides.

use vstd::prelude::*;

use crate::atlas::{spec_texture_index, texture_index, ATLAS_TILES};
use crate::block::{
    spec_from_id, spec_is_non_cube, spec_is_solid, spec_is_transparent, BlockType, Face,
};
use crate::chunk::{spec_index, Chunk, CHUNK_SIZE, CHUNK_VOLUME};

verus! {

/// The six sweep directions, by index: East (+X), West (-X), Top (+Y),
/// Bottom (-Y), South (+Z), North (-Z).
pub const DIR_COUNT: usize = 6;

/// Cells per mask: one 16x16 slice.
pub const MASK_AREA: usize = 256;

/// The `Face` a direction index sweeps.
pub open spec fn spec_dir_face(d: int) -> Face {
    if d == 0 {
        Face::East
    } else if d == 1 {
        Face::West
    } else if d == 2 {
        Face::Top
    } else if d == 3 {
        Face::Bottom
    } else if d == 4 {
        Face::South
    } else {
        Face::North
    }
}

/// Whether a direction points along the negative axis.
pub open spec fn spec_dir_back(d: int) -> bool {
    d == 1 || d == 3 || d == 5
}

/// Whether a direction's triangle winding is flipped for outward normals.
pub open spec fn spec_dir_flip(d: int) -> bool {
    d == 0 || d == 1 || d == 2 || d == 3
}

/// The cell a mask position addresses: `a` runs along the sweep axis, `u`
/// and `v` span the slice. Returns (x, y, z).
pub open spec fn spec_cell_of(d: int, a: int, u: int, v: int) -> (int, int, int) {
    if d == 0 || d == 1 {
        (a, v, u)
    } else if d == 2 || d == 3 {
        (u, a, v)
    } else {
        (u, v, a)
    }
}

/// The face-visibility rule between a block and what lies on the far side:
/// air and non-cube decorations emit nothing; any face against air shows;
/// an opaque solid shows through a transparent neighbor; a transparent
/// block shows only against a different block type.
pub open spec fn spec_face_visible(b: BlockType, n: BlockType) -> bool {
    &&& !(b is Air)
    &&& !spec_is_non_cube(b)
    &&& (spec_is_solid(b) || spec_is_transparent(b))
    &&& (n is Air || (spec_is_solid(b) && !spec_is_transparent(b) && spec_is_transparent(n)) || (
    spec_is_transparent(b) && b != n))
}

/// Decide whether a face is emitted between a block and its far side.
pub fn face_visible(b: BlockType, n: BlockType) -> (r: bool)
    ensures
        r == spec_face_visible(b, n),
{
    if b.is_air() {
        return false;
    }
    if b.is_non_cube() {
        return false;
    }
    if !b.is_solid() && !b.is_transparent() {
        return false;
    }
    if n.is_air() {
        return true;
    }
    if b.is_solid() && !b.is_transparent() && n.is_transparent() {
        return true;
    }
    if b.is_transparent() && b != n {
        return true;
    }
    false
}

/// Owned snapshots of the up to six neighbor chunks, for cross-chunk face
/// culling; an absent neighbor counts as air beyond the boundary.
pub struct NeighborChunks {
    pub east: Option<Chunk>,
    pub west: Option<Chunk>,
    pub top: Option<Chunk>,
    pub bottom: Option<Chunk>,
    pub south: Option<Chunk>,
    pub north: Option<Chunk>,
}

/// Every present neighbor is a well-formed chunk.
pub open spec fn neighbors_wf(n: NeighborChunks) -> bool {
    &&& n.east is Some ==> crate::chunk::chunk_wf(n.east->Some_0)
    &&& n.west is Some ==> crate::chunk::chunk_wf(n.west->Some_0)
    &&& n.top is Some ==> crate::chunk::chunk_wf(n.top->Some_0)
    &&& n.bottom is Some ==> crate::chunk::chunk_wf(n.bottom->Some_0)
    &&& n.south is Some ==> crate::chunk::chunk_wf(n.south->Some_0)
    &&& n.north is Some ==> crate::chunk::chunk_wf(n.north->Some_0)
}

impl NeighborChunks {
    /// No neighbor present: every boundary face sees air.
    pub fn none() -> (r: Self)
        ensures
            r.east is None && r.west is None && r.top is None && r.bottom is None && r.south
                is None && r.north is None,
            neighbors_wf(r),
    {
        NeighborChunks {
            east: None,
            west: None,
            top: None,
            bottom: None,
            south: None,
            north: None,
        }
    }
}

/// The neighbor chunk a direction index leaves the chunk toward.
pub open spec fn spec_neighbor_of(n: NeighborChunks, d: int) -> Option<Chunk> {
    if d == 0 {
        n.east
    } else if d == 1 {
        n.west
    } else if d == 2 {
        n.top
    } else if d == 3 {
        n.bottom
    } else if d == 4 {
        n.south
    } else {
        n.north
    }
}

/// A stored byte reduced to the id of the block it decodes to: unknown
/// bytes canonicalize to air's id.
pub open spec fn spec_canon(id: u8) -> u8 {
    crate::block::spec_id(spec_from_id(id))
}

/// The id of the block on the far side of a face: the previous or next
/// slice of this chunk, or the facing boundary slice of the neighbor chunk,
/// or air when that neighbor is absent.
pub open spec fn spec_far_id(ch: Chunk, n: NeighborChunks, d: int, slice: int, u: int, v: int)
    -> u8 {
    if spec_dir_back(d) {
        if slice == 0 {
            match spec_neighbor_of(n, d) {
                Some(nb) => {
                    let (x, y, z) = spec_cell_of(d, 15, u, v);
                    spec_canon(nb@[spec_index(x, y, z)])
                },
                None => 0u8,
            }
        } else {
            let (x, y, z) = spec_cell_of(d, slice - 1, u, v);
            spec_canon(ch@[spec_index(x, y, z)])
        }
    } else {
        if slice == 15 {
            match spec_neighbor_of(n, d) {
                Some(nb) => {
                    let (x, y, z) = spec_cell_of(d, 0, u, v);
                    spec_canon(nb@[spec_index(x, y, z)])
                },
                None => 0u8,
            }
        } else {
            let (x, y, z) = spec_cell_of(d, slice + 1, u, v);
            spec_canon(ch@[spec_index(x, y, z)])
        }
    }
}

/// The id of the block owning a mask position, canonicalized.
pub open spec fn spec_own_id(ch: Chunk, d: int, slice: int, u: int, v: int) -> u8 {
    let (x, y, z) = spec_cell_of(d, slice, u, v);
    spec_canon(ch@[spec_index(x, y, z)])
}

/// One mask cell: the owning block's id where its face is visible, else 0.
pub open spec fn spec_mask_cell(ch: Chunk, n: NeighborChunks, d: int, slice: int, u: int, v: int)
    -> u8 {
    let own = spec_own_id(ch, d, slice, u, v);
    let far = spec_far_id(ch, n, d, slice, u, v);
    if spec_face_visible(spec_from_id(own), spec_from_id(far)) {
        own
    } else {
        0u8
    }
}

/// A whole 16x16 visibility mask, row-major: position `i` is
/// `(u, v) = (i % 16, i / 16)`.
pub open spec fn spec_mask(ch: Chunk, n: NeighborChunks, d: int, slice: int) -> Seq<u8> {
    Seq::new(MASK_AREA as nat, |i: int| spec_mask_cell(ch, n, d, slice, i % 16, i / 16))
}

/// Map a mask position to the cell it addresses.
fn cell_of(d: usize, a: usize, u: usize, v: usize) -> (r: (usize, usize, usize))
    requires
        d < DIR_COUNT,
        a < CHUNK_SIZE,
        u < CHUNK_SIZE,
        v < CHUNK_SIZE,
    ensures
        (r.0 as int, r.1 as int, r.2 as int) == spec_cell_of(d as int, a as int, u as int, v as int),
        r.0 < CHUNK_SIZE && r.1 < CHUNK_SIZE && r.2 < CHUNK_SIZE,
{
    if d == 0 || d == 1 {
        (a, v, u)
    } else if d == 2 || d == 3 {
        (u, a, v)
    } else {
        (u, v, a)
    }
}

/// Read a raw cell id from a chunk.
fn cell_id(ch: &Chunk, x: usize, y: usize, z: usize) -> (r: u8)
    requires
        crate::chunk::chunk_wf(*ch),
        x < CHUNK_SIZE,
        y < CHUNK_SIZE,
        z < CHUNK_SIZE,
    ensures
        r == spec_canon(ch@[spec_index(x as int, y as int, z as int)]),
{
    ch.get(x, y, z).id()
}

/// The far-side block id for a mask position.
fn far_id(ch: &Chunk, n: &NeighborChunks, d: usize, slice: usize, u: usize, v: usize) -> (r: u8)
    requires
        crate::chunk::chunk_wf(*ch),
        neighbors_wf(*n),
        d < DIR_COUNT,
        slice < CHUNK_SIZE,
        u < CHUNK_SIZE,
        v < CHUNK_SIZE,
    ensures
        r == spec_far_id(*ch, *n, d as int, slice as int, u as int, v as int),
{
    let back = d == 1 || d == 3 || d == 5;
    if back {
        if slice == 0 {
            let nb: &Option<Chunk> = if d == 1 {
                &n.west
            } else if d == 3 {
                &n.bottom
            } else {
                &n.north
            };
            match nb {
                Some(nbc) => {
                    let (x, y, z) = cell_of(d, 15, u, v);
                    cell_id(nbc, x, y, z)
                },
                None => 0,
            }
        } else {
            let (x, y, z) = cell_of(d, slice - 1, u, v);
            cell_id(ch, x, y, z)
        }
    } else {
        if slice == 15 {
            let nb: &Option<Chunk> = if d == 0 {
                &n.east
            } else if d == 2 {
                &n.top
            } else {
                &n.south
            };
            match nb {
                Some(nbc) => {
                    let (x, y, z) = cell_of(d, 0, u, v);
                    cell_id(nbc, x, y, z)
                },
                None => 0,
            }
        } else {
            let (x, y, z) = cell_of(d, slice + 1, u, v);
            cell_id(ch, x, y, z)
        }
    }
}

/// Build the visibility mask for one direction and slice.
fn build_mask(ch: &Chunk, n: &NeighborChunks, d: usize, slice: usize) -> (r: Vec<u8>)
    requires
        crate::chunk::chunk_wf(*ch),
        neighbors_wf(*n),
        d < DIR_COUNT,
        slice < CHUNK_SIZE,
    ensures
        r@ == spec_mask(*ch, *n, d as int, slice as int),
{
    let mut mask: Vec<u8> = Vec::new();
    let mut v: usize = 0;
    while v < CHUNK_SIZE
        invariant
            crate::chunk::chunk_wf(*ch),
            neighbors_wf(*n),
            d < DIR_COUNT,
            slice < CHUNK_SIZE,
            v <= CHUNK_SIZE,
            mask@.len() == v * 16,
            forall|i: int|
                0 <= i < v * 16 ==> mask@[i] == spec_mask_cell(*ch, *n, d as int, slice as int, i
                    % 16, i / 16),
        decreases CHUNK_SIZE - v,
    {
        let mut u: usize = 0;
        while u < CHUNK_SIZE
            invariant
                crate::chunk::chunk_wf(*ch),
                neighbors_wf(*n),
                d < DIR_COUNT,
                slice < CHUNK_SIZE,
                v < CHUNK_SIZE,
                u <= CHUNK_SIZE,
                mask@.len() == v * 16 + u,
                forall|i: int|
                    0 <= i < v * 16 + u ==> mask@[i] == spec_mask_cell(*ch, *n, d as int,
                        slice as int, i % 16, i / 16),
            decreases CHUNK_SIZE - u,
        {
            let (x, y, z) = cell_of(d, slice, u, v);
            let own = cell_id(ch, x, y, z);
            let far = far_id(ch, n, d, slice, u, v);
            let cell = if face_visible(BlockType::from_id(own), BlockType::from_id(far)) {
                own
            } else {
                0
            };
            mask.push(cell);
            u += 1;
        }
        v += 1;
    }
    proof {
        assert(mask@ =~= spec_mask(*ch, *n, d as int, slice as int));
    }
    mask
}

/// One merged face rectangle: direction and slice of the sweep, the
/// rectangle `(u, v)` to `(u+w, v+h)` in mask coordinates, and the block id
/// whose face it shows.
#[derive(Debug, Clone, Copy, PartialEq, Eq, Structural)]
pub struct Quad {
    pub dir: u8,
    pub slice: u8,
    pub u: u8,
    pub v: u8,
    pub w: u8,
    pub h: u8,
    pub block: u8,
}

/// The length of the run of `b` in row `v` starting at column `u`.
pub open spec fn spec_run_w(m: Seq<u8>, v: int, u: int, b: u8) -> int
    decreases 16 - u,
    when u <= 16
{
    if u >= 16 {
        0
    } else if m[v * 16 + u] == b {
        1 + spec_run_w(m, v, u + 1, b)
    } else {
        0
    }
}

/// Whether a whole width-run of row `v` holds `b`.
pub open spec fn spec_row_match(m: Seq<u8>, v: int, u: int, w: int, b: u8) -> bool {
    forall|du: int| 0 <= du < w ==> #[trigger] m[v * 16 + u + du] == b
}

/// How many consecutive rows from `v` down hold the whole width-run.
pub open spec fn spec_run_h(m: Seq<u8>, v: int, u: int, w: int, b: u8) -> int
    decreases 16 - v,
    when v <= 16
{
    if v >= 16 {
        0
    } else if spec_row_match(m, v, u, w, b) {
        1 + spec_run_h(m, v + 1, u, w, b)
    } else {
        0
    }
}

/// The mask with a consumed rectangle cleared to zero.
pub open spec fn spec_clear_rect(m: Seq<u8>, u0: int, v0: int, w: int, h: int) -> Seq<u8> {
    Seq::new(
        m.len(),
        |i: int|
            if u0 <= i % 16 < u0 + w && v0 <= i / 16 < v0 + h {
                0u8
            } else {
                m[i]
            },
    )
}

/// The greedy merge of a mask, scanning row-major from `pos`: an empty cell
/// is skipped; a transparent cell is emitted alone as a 1x1 quad, because
/// merging would erase the seams between distinct transparent volumes; any
/// other cell grows its width along the row, then its height across full
/// width-runs, and the consumed rectangle is cleared and emitted as one quad.
pub open spec fn spec_greedy(m: Seq<u8>, pos: int, d: int, slice: int) -> Seq<Quad>
    decreases 256 - pos,
    when 0 <= pos <= 256 && m.len() == 256
{
    if pos >= 256 {
        Seq::<Quad>::empty()
    } else {
        let u = pos % 16;
        let v = pos / 16;
        let b = m[pos];
        if b == 0 {
            spec_greedy(m, pos + 1, d, slice)
        } else if spec_is_transparent(spec_from_id(b)) {
            seq![
                Quad {
                    dir: d as u8,
                    slice: slice as u8,
                    u: u as u8,
                    v: v as u8,
                    w: 1u8,
                    h: 1u8,
                    block: b,
                },
            ] + spec_greedy(m.update(pos, 0u8), pos + 1, d, slice)
        } else {
            let w = spec_run_w(m, v, u, b);
            let h = spec_run_h(m, v, u, w, b);
            seq![
                Quad {
                    dir: d as u8,
                    slice: slice as u8,
                    u: u as u8,
                    v: v as u8,
                    w: w as u8,
                    h: h as u8,
                    block: b,
                },
            ] + spec_greedy(spec_clear_rect(m, u, v, w, h), pos + 1, d, slice)
        }
    }
}

/// A run that ends (at the row's edge or a mismatch) has exactly the length
/// of its matching cells.
proof fn lemma_run_w_eq(m: Seq<u8>, v: int, u: int, b: u8, w: int)
    requires
        0 <= u,
        0 <= w,
        u + w <= 16,
        forall|du: int| 0 <= du < w ==> #[trigger] m[v * 16 + u + du] == b,
        u + w == 16 || m[v * 16 + u + w] != b,
    ensures
        spec_run_w(m, v, u, b) == w,
    decreases w,
{
    if w == 0 {
        assert(spec_run_w(m, v, u, b) == 0);
    } else {
        assert(m[v * 16 + u + 0] == b);
        assert forall|du: int| 0 <= du < w - 1 implies #[trigger] m[v * 16 + (u + 1) + du] == b by {
            assert(m[v * 16 + u + (du + 1)] == b);
        }
        lemma_run_w_eq(m, v, u + 1, b, w - 1);
    }
}

/// A block of rows that ends (at the mask's edge or a mismatching row) has
/// exactly the height of its matching rows.
proof fn lemma_run_h_eq(m: Seq<u8>, v: int, u: int, w: int, b: u8, h: int)
    requires
        0 <= v,
        0 <= h,
        v + h <= 16,
        forall|dv: int| 0 <= dv < h ==> #[trigger] spec_row_match(m, v + dv, u, w, b),
        v + h == 16 || !spec_row_match(m, v + h, u, w, b),
    ensures
        spec_run_h(m, v, u, w, b) == h,
    decreases h,
{
    if h == 0 {
        assert(spec_run_h(m, v, u, w, b) == 0);
    } else {
        assert(spec_row_match(m, v + 0, u, w, b));
        assert forall|dv: int| 0 <= dv < h - 1 implies #[trigger] spec_row_match(m, v + 1 + dv, u, w, b) by {
            assert(spec_row_match(m, v + (dv + 1), u, w, b));
        }
        lemma_run_h_eq(m, v + 1, u, w, b, h - 1);
    }
}

/// Whether a whole width-run of one mask row holds `b`.
fn row_match(mask: &Vec<u8>, row: usize, u: usize, w: usize, b: u8) -> (r: bool)
    requires
        mask@.len() == MASK_AREA,
        row < CHUNK_SIZE,
        u + w <= CHUNK_SIZE,
    ensures
        r == spec_row_match(mask@, row as int, u as int, w as int, b),
{
    let mut du: usize = 0;
    let mut ok = true;
    while du < w
        invariant
            mask@.len() == MASK_AREA,
            row < CHUNK_SIZE,
            u + w <= CHUNK_SIZE,
            du <= w,
            ok == forall|j: int| 0 <= j < du ==> #[trigger] mask@[row * 16 + u + j] == b,
        decreases w - du,
    {
        if mask[row * CHUNK_SIZE + u + du] != b {
            ok = false;
        }
        du += 1;
    }
    ok
}

/// Greedy-merge one mask, appending the emitted quads.
fn greedy_merge(mask: &mut Vec<u8>, d: usize, slice: usize, quads: &mut Vec<Quad>)
    requires
        old(mask)@.len() == MASK_AREA,
        d < DIR_COUNT,
        slice < CHUNK_SIZE,
    ensures
        final(quads)@ == old(quads)@ + spec_greedy(old(mask)@, 0, d as int, slice as int),
{
    let ghost m0 = mask@;
    let ghost q0 = quads@;
    let mut pos: usize = 0;
    while pos < MASK_AREA
        invariant
            mask@.len() == MASK_AREA,
            d < DIR_COUNT,
            slice < CHUNK_SIZE,
            pos <= MASK_AREA,
            q0 + spec_greedy(m0, 0, d as int, slice as int) == quads@ + spec_greedy(
                mask@,
                pos as int,
                d as int,
                slice as int,
            ),
        decreases MASK_AREA - pos,
    {
        let b = mask[pos];
        let u = pos % CHUNK_SIZE;
        let v = pos / CHUNK_SIZE;
        let ghost m_before = mask@;
        let ghost q_before = quads@;
        if b == 0 {
            proof {
                assert(spec_greedy(m_before, pos as int, d as int, slice as int) == spec_greedy(
                    m_before,
                    pos as int + 1,
                    d as int,
                    slice as int,
                ));
            }
            pos += 1;
        } else if BlockType::from_id(b).is_transparent() {
            let q = Quad {
                dir: d as u8,
                slice: slice as u8,
                u: u as u8,
                v: v as u8,
                w: 1,
                h: 1,
                block: b,
            };
            quads.push(q);
            mask.set(pos, 0);
            proof {
                assert(mask@ == m_before.update(pos as int, 0u8));
                assert(spec_greedy(m_before, pos as int, d as int, slice as int) == seq![q]
                    + spec_greedy(mask@, pos as int + 1, d as int, slice as int));
                assert(q_before + seq![q] == quads@);
                assert(q0 + spec_greedy(m0, 0, d as int, slice as int) =~= quads@ + spec_greedy(
                    mask@,
                    pos as int + 1,
                    d as int,
                    slice as int,
                ));
            }
            pos += 1;
        } else {
            // Grow the width along the row.
            let mut w: usize = 1;
            while u + w < CHUNK_SIZE && mask[pos + w] == b
                invariant
                    mask@.len() == MASK_AREA,
                    pos == v * 16 + u,
                    u < CHUNK_SIZE,
                    v < CHUNK_SIZE,
                    1 <= w,
                    u + w <= CHUNK_SIZE,
                    forall|du: int| 0 <= du < w ==> #[trigger] mask@[v * 16 + u + du] == b,
                decreases CHUNK_SIZE - w,
            {
                w += 1;
            }
            proof {
                lemma_run_w_eq(mask@, v as int, u as int, b, w as int);
            }
            // Grow the height across full width-runs.
            let mut h: usize = 1;
            while v + h < CHUNK_SIZE && row_match(mask, v + h, u, w, b)
                invariant
                    mask@.len() == MASK_AREA,
                    pos == v * 16 + u,
                    u < CHUNK_SIZE,
                    v < CHUNK_SIZE,
                    u + w <= CHUNK_SIZE,
                    1 <= h,
                    v + h <= CHUNK_SIZE,
                    forall|dv: int| 0 <= dv < h ==> #[trigger] spec_row_match(mask@, v + dv, u as int, w as int, b),
                decreases CHUNK_SIZE - h,
            {
                h += 1;
            }
            proof {
                lemma_run_h_eq(mask@, v as int, u as int, w as int, b, h as int);
            }
            // Clear the consumed rectangle.
            let mut dv: usize = 0;
            while dv < h
                invariant
                    mask@.len() == MASK_AREA,
                    u < CHUNK_SIZE,
                    v < CHUNK_SIZE,
                    u + w <= CHUNK_SIZE,
                    v + h <= CHUNK_SIZE,
                    dv <= h,
                    forall|i: int|
                        0 <= i < 256 ==> mask@[i] == (if u <= i % 16 < u + w && v <= i / 16 < v
                            + dv {
                            0u8
                        } else {
                            m_before[i]
                        }),
                decreases h - dv,
            {
                let mut du: usize = 0;
                while du < w
                    invariant
                        mask@.len() == MASK_AREA,
                        u < CHUNK_SIZE,
                        v < CHUNK_SIZE,
                        u + w <= CHUNK_SIZE,
                        v + h <= CHUNK_SIZE,
                        dv < h,
                        du <= w,
                        forall|i: int|
                            0 <= i < 256 ==> mask@[i] == (if (u <= i % 16 < u + w && v <= i / 16
                                < v + dv) || (i / 16 == v + dv && u <= i % 16 < u + du) {
                                0u8
                            } else {
                                m_before[i]
                            }),
                    decreases w - du,
                {
                    let i = (v + dv) * CHUNK_SIZE + u + du;
                    proof {
                        assert(i / 16 == v + dv && i % 16 == u + du) by (nonlinear_arith)
                            requires
                                i == (v + dv) * 16 + u + du,
                                0 <= u + du < 16,
                                0 <= v + dv < 16,
                        ;
                    }
                    mask.set(i, 0);
                    du += 1;
                }
                dv += 1;
            }
            let q = Quad {
                dir: d as u8,
                slice: slice as u8,
                u: u as u8,
                v: v as u8,
                w: w as u8,
                h: h as u8,
                block: b,
            };
            quads.push(q);
            proof {
                assert(mask@ =~= spec_clear_rect(m_before, u as int, v as int, w as int, h as int));
                assert(spec_greedy(m_before, pos as int, d as int, slice as int) == seq![q]
                    + spec_greedy(mask@, pos as int + 1, d as int, slice as int));
                assert(q_before + seq![q] == quads@);
                assert(q0 + spec_greedy(m0, 0, d as int, slice as int) =~= quads@ + spec_greedy(
                    mask@,
                    pos as int + 1,
                    d as int,
                    slice as int,
                ));
            }
            pos += 1;
        }
    }
    proof {
        assert(spec_greedy(mask@, MASK_AREA as int, d as int, slice as int) == Seq::<
            Quad,
        >::empty());
        assert(final(quads)@ =~= old(quads)@ + spec_greedy(old(mask)@, 0, d as int, slice as int));
    }
}

/// All cube-face quads of a chunk: the greedy merges of all 96 masks, in
/// sweep order (six directions, sixteen slices each).
pub open spec fn spec_quads_from(ch: Chunk, n: NeighborChunks, k: int) -> Seq<Quad>
    decreases 96 - k,
    when k <= 96
{
    if k >= 96 {
        Seq::<Quad>::empty()
    } else {
        spec_greedy(spec_mask(ch, n, k / 16, k % 16), 0, k / 16, k % 16) + spec_quads_from(
            ch,
            n,
            k + 1,
        )
    }
}

/// All cube-face quads of a chunk.
pub open spec fn spec_cube_quads(ch: Chunk, n: NeighborChunks) -> Seq<Quad> {
    spec_quads_from(ch, n, 0)
}

/// Collect every cube-face quad of a chunk, in sweep order.
pub fn collect_quads(ch: &Chunk, n: &NeighborChunks) -> (r: Vec<Quad>)
    requires
        crate::chunk::chunk_wf(*ch),
        neighbors_wf(*n),
    ensures
        r@ == spec_cube_quads(*ch, *n),
{
    let mut quads: Vec<Quad> = Vec::new();
    let mut k: usize = 0;
    while k < 96
        invariant
            crate::chunk::chunk_wf(*ch),
            neighbors_wf(*n),
            k <= 96,
            spec_cube_quads(*ch, *n) == quads@ + spec_quads_from(*ch, *n, k as int),
        decreases 96 - k,
    {
        let d = k / CHUNK_SIZE;
        let slice = k % CHUNK_SIZE;
        let mut mask = build_mask(ch, n, d, slice);
        let ghost q_before = quads@;
        greedy_merge(&mut mask, d, slice, &mut quads);
        proof {
            assert(spec_quads_from(*ch, *n, k as int) == spec_greedy(
                spec_mask(*ch, *n, d as int, slice as int),
                0,
                d as int,
                slice as int,
            ) + spec_quads_from(*ch, *n, k as int + 1));
            assert(spec_cube_quads(*ch, *n) =~= quads@ + spec_quads_from(*ch, *n, k as int + 1));
        }
        k += 1;
    }
    proof {
        assert(spec_quads_from(*ch, *n, 96) == Seq::<Quad>::empty());
        assert(quads@ =~= spec_cube_quads(*ch, *n));
    }
    quads
}

/// One mesh vertex: position in hundredths of a cell, an integer unit
/// normal, texture coordinates and the tile origin in atlas-tile units.
#[derive(Debug, Clone, Copy, PartialEq, Eq, Structural)]
pub struct MeshVertex {
    pub px: i32,
    pub py: i32,
    pub pz: i32,
    pub nx: i32,
    pub ny: i32,
    pub nz: i32,
    pub u: i32,
    pub v: i32,
    pub tu: i32,
    pub tv: i32,
}

/// A renderable mesh: vertices plus triangle-list indices.
pub struct MeshData {
    pub vertices: Vec<MeshVertex>,
    pub indices: Vec<u32>,
}

/// A corner of a cube-face quad, in hundredths of a cell.
pub open spec fn spec_corner(d: int, off: int, cu: int, cv: int) -> (int, int, int) {
    let (x, y, z) = spec_cell_of(d, off, cu, cv);
    (x * 100, y * 100, z * 100)
}

/// One vertex of a cube-face quad.
pub open spec fn spec_quad_vertex(q: Quad, cu: int, cv: int, tu_: int, tv_: int) -> MeshVertex {
    let d = q.dir as int;
    let off = if spec_dir_back(d) {
        q.slice as int
    } else {
        q.slice as int + 1
    };
    let (px, py, pz) = spec_corner(d, off, cu, cv);
    let (nx, ny, nz) = crate::block::spec_face_normal(spec_dir_face(d));
    let tile = spec_texture_index(spec_from_id(q.block), spec_dir_face(d)) as int;
    MeshVertex {
        px: px as i32,
        py: py as i32,
        pz: pz as i32,
        nx,
        ny,
        nz,
        u: tu_ as i32,
        v: tv_ as i32,
        tu: (tile % 16) as i32,
        tv: (tile / 16) as i32,
    }
}

/// The four vertices of a cube-face quad, in winding order. The texture
/// spans `w` by `h` tiles so the pattern repeats across merged surfaces.
pub open spec fn spec_quad_vertices(q: Quad) -> Seq<MeshVertex> {
    let d = q.dir as int;
    let u0 = q.u as int;
    let v0 = q.v as int;
    let u1 = q.u as int + q.w as int;
    let v1 = q.v as int + q.h as int;
    let tile = spec_texture_index(spec_from_id(q.block), spec_dir_face(d)) as int;
    let tu0 = tile % 16;
    let tv0 = tile / 16;
    let tu1 = tu0 + q.w as int;
    let tv1 = tv0 + q.h as int;
    if spec_dir_back(d) {
        seq![
            spec_quad_vertex(q, u0, v0, tu0, tv1),
            spec_quad_vertex(q, u0, v1, tu0, tv0),
            spec_quad_vertex(q, u1, v1, tu1, tv0),
            spec_quad_vertex(q, u1, v0, tu1, tv1),
        ]
    } else {
        seq![
            spec_quad_vertex(q, u0, v0, tu0, tv1),
            spec_quad_vertex(q, u1, v0, tu1, tv1),
            spec_quad_vertex(q, u1, v1, tu1, tv0),
            spec_quad_vertex(q, u0, v1, tu0, tv0),
        ]
    }
}

/// The six indices of a cube-face quad over a vertex base: two triangles,
/// wound so the face points outward.
pub open spec fn spec_quad_indices(base: int, q: Quad) -> Seq<u32> {
    if spec_dir_flip(q.dir as int) {
        seq![
            base as u32,
            (base + 2) as u32,
            (base + 1) as u32,
            base as u32,
            (base + 3) as u32,
            (base + 2) as u32,
        ]
    } else {
        seq![
            base as u32,
            (base + 1) as u32,
            (base + 2) as u32,
            base as u32,
            (base + 2) as u32,
            (base + 3) as u32,
        ]
    }
}

/// Append one cube-face quad's geometry.
fn emit_quad(q: Quad, vertices: &mut Vec<MeshVertex>, indices: &mut Vec<u32>)
    requires
        q.dir < 6,
        q.slice < 16,
        q.u as int + q.w as int <= 16,
        q.v as int + q.h as int <= 16,
        old(vertices)@.len() * 3 < 1000000000,
    ensures
        final(vertices)@ == old(vertices)@ + spec_quad_vertices(q),
        final(indices)@ == old(indices)@ + spec_quad_indices(old(vertices)@.len() as int, q),
{
    let base = vertices.len() as u32;
    let d = q.dir as usize;
    let back = d == 1 || d == 3 || d == 5;
    let flip = d == 0 || d == 1 || d == 2 || d == 3;
    let off: usize = if back {
        q.slice as usize
    } else {
        q.slice as usize + 1
    };
    let face = match d {
        0 => Face::East,
        1 => Face::West,
        2 => Face::Top,
        3 => Face::Bottom,
        4 => Face::South,
        _ => Face::North,
    };
    proof {
        assert(face == spec_dir_face(d as int));
    }
    let (nx, ny, nz) = face.normal();
    let tile = texture_index(BlockType::from_id(q.block), face);
    let tu0 = (tile % ATLAS_TILES) as i32;
    let tv0 = (tile / ATLAS_TILES) as i32;
    let tu1 = tu0 + q.w as i32;
    let tv1 = tv0 + q.h as i32;
    let u0 = q.u as usize;
    let v0 = q.v as usize;
    let u1 = q.u as usize + q.w as usize;
    let v1 = q.v as usize + q.h as usize;
    let corner = |cu: usize, cv: usize| -> (r: (i32, i32, i32))
        requires
            d < 6,
            off <= 16,
            cu <= 16,
            cv <= 16,
        ensures
            (r.0 as int, r.1 as int, r.2 as int) == spec_corner(d as int, off as int, cu as int,
                cv as int),
        {
            let (x, y, z): (usize, usize, usize) = if d == 0 || d == 1 {
                (off, cv, cu)
            } else if d == 2 || d == 3 {
                (cu, off, cv)
            } else {
                (cu, cv, off)
            };
            ((x * 100) as i32, (y * 100) as i32, (z * 100) as i32)
        };
    let mk = |pos: (i32, i32, i32), tu_: i32, tv_: i32| -> (r: MeshVertex)
        ensures
            r == (MeshVertex {
                px: pos.0,
                py: pos.1,
                pz: pos.2,
                nx,
                ny,
                nz,
                u: tu_,
                v: tv_,
                tu: tu0,
                tv: tv0,
            }),
        {
            MeshVertex {
                px: pos.0,
                py: pos.1,
                pz: pos.2,
                nx,
                ny,
                nz,
                u: tu_,
                v: tv_,
                tu: tu0,
                tv: tv0,
            }
        };
    if back {
        vertices.push(mk(corner(u0, v0), tu0, tv1));
        vertices.push(mk(corner(u0, v1), tu0, tv0));
        vertices.push(mk(corner(u1, v1), tu1, tv0));
        vertices.push(mk(corner(u1, v0), tu1, tv1));
    } else {
        vertices.push(mk(corner(u0, v0), tu0, tv1));
        vertices.push(mk(corner(u1, v0), tu1, tv1));
        vertices.push(mk(corner(u1, v1), tu1, tv0));
        vertices.push(mk(corner(u0, v1), tu0, tv0));
    }
    if flip {
        indices.push(base);
        indices.push(base + 2);
        indices.push(base + 1);
        indices.push(base);
        indices.push(base + 3);
        indices.push(base + 2);
    } else {
        indices.push(base);
        indices.push(base + 1);
        indices.push(base + 2);
        indices.push(base);
        indices.push(base + 2);
        indices.push(base + 3);
    }
    proof {
        assert(final(vertices)@ =~= old(vertices)@ + spec_quad_vertices(q));
        assert(final(indices)@ =~= old(indices)@ + spec_quad_indices(
            old(vertices)@.len() as int,
            q,
        ));
    }
}

/// One non-cube decoration cell, drawn as a cross billboard.
#[derive(Debug, Clone, Copy, PartialEq, Eq, Structural)]
pub struct BillboardCell {
    pub x: u8,
    pub y: u8,
    pub z: u8,
    pub block: u8,
}

/// Every non-cube cell of the chunk, in y-major scan order.
pub open spec fn spec_billboards_from(ch: Chunk, k: int) -> Seq<BillboardCell>
    decreases 4096 - k,
    when k <= 4096
{
    if k >= 4096 {
        Seq::<BillboardCell>::empty()
    } else {
        let b = spec_canon(ch@[k]);
        let rest = spec_billboards_from(ch, k + 1);
        if spec_is_non_cube(spec_from_id(b)) {
            seq![
                BillboardCell {
                    x: (k % 16) as u8,
                    y: (k / 256) as u8,
                    z: ((k % 256) / 16) as u8,
                    block: b,
                },
            ] + rest
        } else {
            rest
        }
    }
}

/// Every non-cube cell of the chunk, in y-major scan order.
pub open spec fn spec_billboards(ch: Chunk) -> Seq<BillboardCell> {
    spec_billboards_from(ch, 0)
}

/// One vertex of a cross billboard: the uniform upward normal gives the
/// decoration even lighting.
pub open spec fn spec_billboard_vertex(c: BillboardCell, px: int, py: int, pz: int, u: int, v: int)
    -> MeshVertex {
    let tile = spec_texture_index(spec_from_id(c.block), Face::South) as int;
    MeshVertex {
        px: px as i32,
        py: py as i32,
        pz: pz as i32,
        nx: 0,
        ny: 1,
        nz: 0,
        u: u as i32,
        v: v as i32,
        tu: (tile % 16) as i32,
        tv: (tile / 16) as i32,
    }
}

/// The sixteen vertices of a cross billboard: two diagonal quads inset 0.15
/// of a cell from the block edges, each side duplicated with mirrored
/// texture coordinates for double-sided visibility.
pub open spec fn spec_billboard_vertices(c: BillboardCell) -> Seq<MeshVertex> {
    let xlo = c.x as int * 100 + 15;
    let xhi = c.x as int * 100 + 85;
    let zlo = c.z as int * 100 + 15;
    let zhi = c.z as int * 100 + 85;
    let y0 = c.y as int * 100;
    let y1 = c.y as int * 100 + 100;
    let tile = spec_texture_index(spec_from_id(c.block), Face::South) as int;
    let tu0 = tile % 16;
    let tv0 = tile / 16;
    seq![
        // First diagonal, front.
        spec_billboard_vertex(c, xlo, y0, zlo, tu0, tv0 + 1),
        spec_billboard_vertex(c, xhi, y0, zhi, tu0 + 1, tv0 + 1),
        spec_billboard_vertex(c, xhi, y1, zhi, tu0 + 1, tv0),
        spec_billboard_vertex(c, xlo, y1, zlo, tu0, tv0),
        // First diagonal, mirrored back.
        spec_billboard_vertex(c, xlo, y0, zlo, tu0 + 1, tv0 + 1),
        spec_billboard_vertex(c, xhi, y0, zhi, tu0, tv0 + 1),
        spec_billboard_vertex(c, xhi, y1, zhi, tu0, tv0),
        spec_billboard_vertex(c, xlo, y1, zlo, tu0 + 1, tv0),
        // Second diagonal, front.
        spec_billboard_vertex(c, xhi, y0, zlo, tu0, tv0 + 1),
        spec_billboard_vertex(c, xlo, y0, zhi, tu0 + 1, tv0 + 1),
        spec_billboard_vertex(c, xlo, y1, zhi, tu0 + 1, tv0),
        spec_billboard_vertex(c, xhi, y1, zlo, tu0, tv0),
        // Second diagonal, mirrored back.
        spec_billboard_vertex(c, xhi, y0, zlo, tu0 + 1, tv0 + 1),
        spec_billboard_vertex(c, xlo, y0, zhi, tu0, tv0 + 1),
        spec_billboard_vertex(c, xlo, y1, zhi, tu0, tv0),
        spec_billboard_vertex(c, xhi, y1, zlo, tu0 + 1, tv0),
    ]
}

/// The twenty-four indices of a cross billboard over a vertex base: front
/// winding for the first and third side, reversed winding for the mirrored
/// backs.
pub open spec fn spec_billboard_indices(base: int) -> Seq<u32> {
    seq![
        base as u32,
        (base + 1) as u32,
        (base + 2) as u32,
        base as u32,
        (base + 2) as u32,
        (base + 3) as u32,
        (base + 4) as u32,
        (base + 6) as u32,
        (base + 5) as u32,
        (base + 4) as u32,
        (base + 7) as u32,
        (base + 6) as u32,
        (base + 8) as u32,
        (base + 9) as u32,
        (base + 10) as u32,
        (base + 8) as u32,
        (base + 10) as u32,
        (base + 11) as u32,
        (base + 12) as u32,
        (base + 14) as u32,
        (base + 13) as u32,
        (base + 12) as u32,
        (base + 15) as u32,
        (base + 14) as u32,
    ]
}

/// Collect every non-cube decoration cell, in scan order.
pub fn collect_billboards(ch: &Chunk) -> (r: Vec<BillboardCell>)
    requires
        crate::chunk::chunk_wf(*ch),
    ensures
        r@ == spec_billboards(*ch),
{
    let mut out: Vec<BillboardCell> = Vec::new();
    let mut k: usize = 0;
    while k < CHUNK_VOLUME
        invariant
            crate::chunk::chunk_wf(*ch),
            k <= CHUNK_VOLUME,
            spec_billboards(*ch) == out@ + spec_billboards_from(*ch, k as int),
        decreases CHUNK_VOLUME - k,
    {
        let x = k % 16;
        let z = (k % 256) / 16;
        let y = k / 256;
        let b = ch.get(x, y, z).id();
        let ghost out_before = out@;
        proof {
            assert(spec_index(x as int, y as int, z as int) == k) by (nonlinear_arith)
                requires
                    0 <= k < 4096,
                    x == k % 16,
                    z == (k % 256) / 16,
                    y == k / 256,
            ;
        }
        if BlockType::from_id(b).is_non_cube() {
            let cell = BillboardCell { x: x as u8, y: y as u8, z: z as u8, block: b };
            out.push(cell);
            proof {
                assert(spec_billboards_from(*ch, k as int) == seq![cell] + spec_billboards_from(
                    *ch,
                    k as int + 1,
                ));
                assert(spec_billboards(*ch) =~= out@ + spec_billboards_from(*ch, k as int + 1));
            }
        } else {
            proof {
                assert(spec_billboards_from(*ch, k as int) == spec_billboards_from(
                    *ch,
                    k as int + 1,
                ));
            }
        }
        k += 1;
    }
    proof {
        assert(spec_billboards_from(*ch, CHUNK_VOLUME as int) == Seq::<BillboardCell>::empty());
        assert(out@ =~= spec_billboards(*ch));
    }
    out
}

/// Append one cross billboard's geometry.
fn emit_billboard(c: BillboardCell, vertices: &mut Vec<MeshVertex>, indices: &mut Vec<u32>)
    requires
        c.x < 16,
        c.y < 16,
        c.z < 16,
        old(vertices)@.len() * 3 < 1000000000,
    ensures
        final(vertices)@ == old(vertices)@ + spec_billboard_vertices(c),
        final(indices)@ == old(indices)@ + spec_billboard_indices(old(vertices)@.len() as int),
{
    let base = vertices.len() as u32;
    let xlo = c.x as i32 * 100 + 15;
    let xhi = c.x as i32 * 100 + 85;
    let zlo = c.z as i32 * 100 + 15;
    let zhi = c.z as i32 * 100 + 85;
    let y0 = c.y as i32 * 100;
    let y1 = c.y as i32 * 100 + 100;
    let tile = texture_index(BlockType::from_id(c.block), Face::South);
    let tu0 = (tile % ATLAS_TILES) as i32;
    let tv0 = (tile / ATLAS_TILES) as i32;
    let mk = |px: i32, py: i32, pz: i32, u_: i32, v_: i32| -> (r: MeshVertex)
        ensures
            r == (MeshVertex {
                px,
                py,
                pz,
                nx: 0,
                ny: 1,
                nz: 0,
                u: u_,
                v: v_,
                tu: tu0,
                tv: tv0,
            }),
        {
            MeshVertex { px, py, pz, nx: 0, ny: 1, nz: 0, u: u_, v: v_, tu: tu0, tv: tv0 }
        };
    vertices.push(mk(xlo, y0, zlo, tu0, tv0 + 1));
    vertices.push(mk(xhi, y0, zhi, tu0 + 1, tv0 + 1));
    vertices.push(mk(xhi, y1, zhi, tu0 + 1, tv0));
    vertices.push(mk(xlo, y1, zlo, tu0, tv0));
    vertices.push(mk(xlo, y0, zlo, tu0 + 1, tv0 + 1));
    vertices.push(mk(xhi, y0, zhi, tu0, tv0 + 1));
    vertices.push(mk(xhi, y1, zhi, tu0, tv0));
    vertices.push(mk(xlo, y1, zlo, tu0 + 1, tv0));
    vertices.push(mk(xhi, y0, zlo, tu0, tv0 + 1));
    vertices.push(mk(xlo, y0, zhi, tu0 + 1, tv0 + 1));
    vertices.push(mk(xlo, y1, zhi, tu0 + 1, tv0));
    vertices.push(mk(xhi, y1, zlo, tu0, tv0));
    vertices.push(mk(xhi, y0, zlo, tu0 + 1, tv0 + 1));
    vertices.push(mk(xlo, y0, zhi, tu0, tv0 + 1));
    vertices.push(mk(xlo, y1, zhi, tu0, tv0));
    vertices.push(mk(xhi, y1, zlo, tu0 + 1, tv0));
    indices.push(base);
    indices.push(base + 1);
    indices.push(base + 2);
    indices.push(base);
    indices.push(base + 2);
    indices.push(base + 3);
    indices.push(base + 4);
    indices.push(base + 6);
    indices.push(base + 5);
    indices.push(base + 4);
    indices.push(base + 7);
    indices.push(base + 6);
    indices.push(base + 8);
    indices.push(base + 9);
    indices.push(base + 10);
    indices.push(base + 8);
    indices.push(base + 10);
    indices.push(base + 11);
    indices.push(base + 12);
    indices.push(base + 14);
    indices.push(base + 13);
    indices.push(base + 12);
    indices.push(base + 15);
    indices.push(base + 14);
    proof {
        assert(final(vertices)@ =~= old(vertices)@ + spec_billboard_vertices(c));
        assert(final(indices)@ =~= old(indices)@ + spec_billboard_indices(
            old(vertices)@.len() as int,
        ));
    }
}

/// A structurally sound quad: a nonempty rectangle inside one slice.
pub open spec fn quad_wf(q: Quad) -> bool {
    &&& q.dir < 6
    &&& q.slice < 16
    &&& 1 <= q.w
    &&& 1 <= q.h
    &&& q.u as int + q.w as int <= 16
    &&& q.v as int + q.h as int <= 16
}

/// A width-run never reaches past the row's edge.
proof fn lemma_run_w_bounds(m: Seq<u8>, v: int, u: int, b: u8)
    requires
        0 <= u <= 16,
    ensures
        0 <= spec_run_w(m, v, u, b) <= 16 - u,
    decreases 16 - u,
{
    if u < 16 && m[v * 16 + u] == b {
        lemma_run_w_bounds(m, v, u + 1, b);
    }
}

/// Every cell of a width-run matches the run's block.
proof fn lemma_run_w_cells(m: Seq<u8>, v: int, u: int, b: u8)
    requires
        0 <= u <= 16,
    ensures
        forall|du: int|
            0 <= du < spec_run_w(m, v, u, b) ==> #[trigger] m[v * 16 + u + du] == b,
    decreases 16 - u,
{
    if u < 16 && m[v * 16 + u] == b {
        lemma_run_w_cells(m, v, u + 1, b);
        assert forall|du: int| 0 <= du < spec_run_w(m, v, u, b) implies #[trigger] m[v * 16 + u
            + du] == b by {
            if du == 0 {
                assert(m[v * 16 + u] == b);
            } else {
                assert(m[v * 16 + (u + 1) + (du - 1)] == b);
            }
        }
    }
}

/// A height-run never reaches past the mask's last row.
proof fn lemma_run_h_bounds(m: Seq<u8>, v: int, u: int, w: int, b: u8)
    requires
        0 <= v <= 16,
    ensures
        0 <= spec_run_h(m, v, u, w, b) <= 16 - v,
    decreases 16 - v,
{
    if v < 16 && spec_row_match(m, v, u, w, b) {
        lemma_run_h_bounds(m, v + 1, u, w, b);
    }
}

/// Every quad a greedy merge emits is structurally sound and tagged with
/// its own direction and slice.
#[verifier::rlimit(60)]
proof fn lemma_greedy_wf(m: Seq<u8>, pos: int, d: int, slice: int)
    requires
        m.len() == 256,
        0 <= pos <= 256,
        0 <= d < 6,
        0 <= slice < 16,
    ensures
        forall|i: int|
            0 <= i < spec_greedy(m, pos, d, slice).len() ==> quad_wf(
                #[trigger] spec_greedy(m, pos, d, slice)[i],
            ) && spec_greedy(m, pos, d, slice)[i].dir == d && spec_greedy(m, pos, d, slice)[i].slice
                == slice,
    decreases 256 - pos,
{
    if pos >= 256 {
    } else {
        let u = pos % 16;
        let v = pos / 16;
        let b = m[pos];
        if b == 0 {
            lemma_greedy_wf(m, pos + 1, d, slice);
            assert(spec_greedy(m, pos, d, slice) == spec_greedy(m, pos + 1, d, slice));
            assert forall|i: int|
                0 <= i < spec_greedy(m, pos, d, slice).len() implies quad_wf(
                #[trigger] spec_greedy(m, pos, d, slice)[i],
            ) && spec_greedy(m, pos, d, slice)[i].dir == d && spec_greedy(m, pos, d, slice)[i].slice
                == slice by {
                assert(spec_greedy(m, pos, d, slice)[i] == spec_greedy(m, pos + 1, d, slice)[i]);
            }
        } else if spec_is_transparent(spec_from_id(b)) {
            lemma_greedy_wf(m.update(pos, 0u8), pos + 1, d, slice);
            let q = Quad {
                dir: d as u8,
                slice: slice as u8,
                u: u as u8,
                v: v as u8,
                w: 1u8,
                h: 1u8,
                block: b,
            };
            let rest = spec_greedy(m.update(pos, 0u8), pos + 1, d, slice);
            let whole = spec_greedy(m, pos, d, slice);
            assert(whole == seq![q] + rest);
            assert forall|i: int|
                0 <= i < whole.len() implies quad_wf(#[trigger] whole[i]) && whole[i].dir == d
                && whole[i].slice == slice by {
                if i == 0 {
                    assert(whole[i] == q);
                } else {
                    assert(whole[i] == rest[i - 1]);
                }
            }
        } else {
            let w = spec_run_w(m, v, u, b);
            let h = spec_run_h(m, v, u, w, b);
            assert(v * 16 + u == pos);
            assert(m[v * 16 + u] == b);
            lemma_run_w_bounds(m, v, u, b);
            lemma_run_w_bounds(m, v, u + 1, b);
            assert(spec_run_w(m, v, u, b) == 1 + spec_run_w(m, v, u + 1, b));
            assert(w >= 1);
            lemma_run_w_cells(m, v, u, b);
            assert(spec_row_match(m, v, u, w, b));
            lemma_run_h_bounds(m, v, u, w, b);
            lemma_run_h_bounds(m, v + 1, u, w, b);
            assert(spec_run_h(m, v, u, w, b) == 1 + spec_run_h(m, v + 1, u, w, b));
            assert(h >= 1);
            lemma_greedy_wf(spec_clear_rect(m, u, v, w, h), pos + 1, d, slice);
            let q = Quad {
                dir: d as u8,
                slice: slice as u8,
                u: u as u8,
                v: v as u8,
                w: w as u8,
                h: h as u8,
                block: b,
            };
            let rest = spec_greedy(spec_clear_rect(m, u, v, w, h), pos + 1, d, slice);
            let whole = spec_greedy(m, pos, d, slice);
            assert(whole == seq![q] + rest);
            assert forall|i: int|
                0 <= i < whole.len() implies quad_wf(#[trigger] whole[i]) && whole[i].dir == d
                && whole[i].slice == slice by {
                if i == 0 {
                    assert(whole[i] == q);
                } else {
                    assert(whole[i] == rest[i - 1]);
                }
            }
        }
    }
}

/// A greedy merge emits at most one quad per scanned cell.
proof fn lemma_greedy_len(m: Seq<u8>, pos: int, d: int, slice: int)
    requires
        m.len() == 256,
        0 <= pos <= 256,
    ensures
        spec_greedy(m, pos, d, slice).len() <= 256 - pos,
    decreases 256 - pos,
{
    if pos >= 256 {
    } else {
        let u = pos % 16;
        let v = pos / 16;
        let b = m[pos];
        if b == 0 {
            lemma_greedy_len(m, pos + 1, d, slice);
        } else if spec_is_transparent(spec_from_id(b)) {
            lemma_greedy_len(m.update(pos, 0u8), pos + 1, d, slice);
        } else {
            lemma_greedy_len(
                spec_clear_rect(m, u, v, spec_run_w(m, v, u, b), spec_run_h(m, v, u, spec_run_w(m, v, u, b), b)),
                pos + 1,
                d,
                slice,
            );
        }
    }
}

/// Every cube quad of a chunk is structurally sound; there are at most 256
/// per mask.
proof fn lemma_quads_from_wf(ch: Chunk, n: NeighborChunks, k: int)
    requires
        0 <= k <= 96,
    ensures
        forall|i: int|
            0 <= i < spec_quads_from(ch, n, k).len() ==> quad_wf(
                #[trigger] spec_quads_from(ch, n, k)[i],
            ),
        spec_quads_from(ch, n, k).len() <= (96 - k) * 256,
    decreases 96 - k,
{
    if k >= 96 {
    } else {
        let m = spec_mask(ch, n, k / 16, k % 16);
        lemma_greedy_wf(m, 0, k / 16, k % 16);
        lemma_greedy_len(m, 0, k / 16, k % 16);
        lemma_quads_from_wf(ch, n, k + 1);
    }
}

/// A greedy merge of an all-empty region emits nothing.
proof fn lemma_greedy_of_zeros(m: Seq<u8>, pos: int, d: int, slice: int)
    requires
        m.len() == 256,
        0 <= pos <= 256,
        forall|i: int| pos <= i < 256 ==> m[i] == 0u8,
    ensures
        spec_greedy(m, pos, d, slice) == Seq::<Quad>::empty(),
    decreases 256 - pos,
{
    if pos < 256 {
        lemma_greedy_of_zeros(m, pos + 1, d, slice);
    }
}

/// An all-air chunk has no cube quads.
proof fn lemma_empty_chunk_no_quads(ch: Chunk, n: NeighborChunks, k: int)
    requires
        crate::chunk::chunk_wf(ch),
        forall|i: int| 0 <= i < 4096 ==> ch@[i] == 0u8,
        0 <= k <= 96,
    ensures
        spec_quads_from(ch, n, k) == Seq::<Quad>::empty(),
    decreases 96 - k,
{
    if k < 96 {
        let d = k / 16;
        let slice = k % 16;
        let m = spec_mask(ch, n, d, slice);
        assert forall|i: int| 0 <= i < 256 implies m[i] == 0u8 by {
            let u = i % 16;
            let v = i / 16;
            let (x, y, z) = spec_cell_of(d, slice, u, v);
            assert(spec_own_id(ch, d, slice, u, v) == 0u8);
        }
        lemma_greedy_of_zeros(m, 0, d, slice);
        lemma_empty_chunk_no_quads(ch, n, k + 1);
        assert(spec_quads_from(ch, n, k) =~= Seq::<Quad>::empty());
    }
}

/// An all-air chunk has no billboards.
proof fn lemma_empty_chunk_no_bills(ch: Chunk, k: int)
    requires
        crate::chunk::chunk_wf(ch),
        forall|i: int| 0 <= i < 4096 ==> ch@[i] == 0u8,
        0 <= k <= 4096,
    ensures
        spec_billboards_from(ch, k) == Seq::<BillboardCell>::empty(),
    decreases 4096 - k,
{
    if k < 4096 {
        lemma_empty_chunk_no_bills(ch, k + 1);
    }
}

/// Billboard cells lie inside the chunk, at most one per cell.
proof fn lemma_billboards_wf(ch: Chunk, k: int)
    requires
        0 <= k <= 4096,
    ensures
        spec_billboards_from(ch, k).len() <= 4096 - k,
        forall|i: int|
            0 <= i < spec_billboards_from(ch, k).len() ==> (#[trigger] spec_billboards_from(
                ch,
                k,
            )[i]).x < 16 && spec_billboards_from(ch, k)[i].y < 16 && spec_billboards_from(
                ch,
                k,
            )[i].z < 16,
    decreases 4096 - k,
{
    if k < 4096 {
        lemma_billboards_wf(ch, k + 1);
    }
}

/// The vertices of a quad list, flattened in order.
pub open spec fn spec_verts_of_quads(qs: Seq<Quad>) -> Seq<MeshVertex>
    decreases qs.len(),
{
    if qs.len() == 0 {
        Seq::<MeshVertex>::empty()
    } else {
        spec_verts_of_quads(qs.drop_last()) + spec_quad_vertices(qs.last())
    }
}

/// The indices of a quad list, each quad over its own four-vertex base.
pub open spec fn spec_idx_of_quads(qs: Seq<Quad>) -> Seq<u32>
    decreases qs.len(),
{
    if qs.len() == 0 {
        Seq::<u32>::empty()
    } else {
        spec_idx_of_quads(qs.drop_last()) + spec_quad_indices(4 * (qs.len() - 1), qs.last())
    }
}

/// The vertices of a billboard list, flattened in order.
pub open spec fn spec_verts_of_bills(bs: Seq<BillboardCell>) -> Seq<MeshVertex>
    decreases bs.len(),
{
    if bs.len() == 0 {
        Seq::<MeshVertex>::empty()
    } else {
        spec_verts_of_bills(bs.drop_last()) + spec_billboard_vertices(bs.last())
    }
}

/// The indices of a billboard list over a vertex base.
pub open spec fn spec_idx_of_bills(bs: Seq<BillboardCell>, vbase: int) -> Seq<u32>
    decreases bs.len(),
{
    if bs.len() == 0 {
        Seq::<u32>::empty()
    } else {
        spec_idx_of_bills(bs.drop_last(), vbase) + spec_billboard_indices(
            vbase + 16 * (bs.len() - 1),
        )
    }
}

/// Four vertices and six indices per quad.
pub proof fn lemma_quad_geometry_len(qs: Seq<Quad>)
    ensures
        spec_verts_of_quads(qs).len() == 4 * qs.len(),
        spec_idx_of_quads(qs).len() == 6 * qs.len(),
    decreases qs.len(),
{
    if qs.len() > 0 {
        lemma_quad_geometry_len(qs.drop_last());
    }
}

/// Sixteen vertices and twenty-four indices per billboard.
pub proof fn lemma_bill_geometry_len(bs: Seq<BillboardCell>, vbase: int)
    ensures
        spec_verts_of_bills(bs).len() == 16 * bs.len(),
        spec_idx_of_bills(bs, vbase).len() == 24 * bs.len(),
    decreases bs.len(),
{
    if bs.len() > 0 {
        lemma_bill_geometry_len(bs.drop_last(), vbase);
    }
}

/// Build a chunk's renderable mesh: greedy-merged cube faces for every
/// visible face, then a cross billboard for every non-cube decoration.
/// Always succeeds; an all-air or fully enclosed chunk yields a valid
/// zero-vertex mesh, and every index points at a vertex of the mesh.
pub fn build_chunk_mesh(ch: &Chunk, n: &NeighborChunks) -> (r: MeshData)
    requires
        crate::chunk::chunk_wf(*ch),
        neighbors_wf(*n),
    ensures
        r.vertices@ == spec_verts_of_quads(spec_cube_quads(*ch, *n)) + spec_verts_of_bills(
            spec_billboards(*ch),
        ),
        r.indices@ == spec_idx_of_quads(spec_cube_quads(*ch, *n)) + spec_idx_of_bills(
            spec_billboards(*ch),
            4 * spec_cube_quads(*ch, *n).len() as int,
        ),
        r.vertices@.len() == 4 * spec_cube_quads(*ch, *n).len() + 16 * spec_billboards(*ch).len(),
        r.indices@.len() == 6 * spec_cube_quads(*ch, *n).len() + 24 * spec_billboards(*ch).len(),
        forall|i: int| 0 <= i < r.indices@.len() ==> r.indices@[i] < r.vertices@.len(),
{
    proof {
        lemma_quad_geometry_len(spec_cube_quads(*ch, *n));
        lemma_bill_geometry_len(spec_billboards(*ch), 4 * spec_cube_quads(*ch, *n).len() as int);
    }
    if ch.is_empty() {
        proof {
            lemma_empty_chunk_no_quads(*ch, *n, 0);
            lemma_empty_chunk_no_bills(*ch, 0);
        }
        return MeshData { vertices: Vec::new(), indices: Vec::new() };
    }
    let quads = collect_quads(ch, n);
    let bills = collect_billboards(ch);
    proof {
        lemma_quads_from_wf(*ch, *n, 0);
        lemma_billboards_wf(*ch, 0);
    }
    let mut vertices: Vec<MeshVertex> = Vec::new();
    let mut indices: Vec<u32> = Vec::new();
    let nq = quads.len();
    let mut k: usize = 0;
    while k < nq
        invariant
            nq == quads@.len(),
            quads@ == spec_cube_quads(*ch, *n),
            nq <= 24576,
            k <= nq,
            forall|i: int| 0 <= i < quads@.len() ==> quad_wf(#[trigger] quads@[i]),
            vertices@ == spec_verts_of_quads(quads@.take(k as int)),
            indices@ == spec_idx_of_quads(quads@.take(k as int)),
            vertices@.len() == 4 * k,
            indices@.len() == 6 * k,
            forall|i: int| 0 <= i < indices@.len() ==> indices@[i] < vertices@.len(),
        decreases nq - k,
    {
        let q = quads[k];
        let ghost verts_before = vertices@;
        let ghost idx_before = indices@;
        emit_quad(q, &mut vertices, &mut indices);
        proof {
            assert(quads@.take(k as int + 1).drop_last() =~= quads@.take(k as int));
            assert(quads@.take(k as int + 1).last() == q);
            assert(vertices@ =~= spec_verts_of_quads(quads@.take(k as int + 1)));
            assert(indices@ =~= spec_idx_of_quads(quads@.take(k as int + 1)));
            assert forall|i: int| 0 <= i < indices@.len() implies indices@[i] < vertices@.len() by {
                if i < idx_before.len() {
                    assert(indices@[i] == idx_before[i]);
                } else {
                    assert(indices@[i] == spec_quad_indices(4 * k, q)[i - idx_before.len()]);
                }
            }
        }
        k += 1;
    }
    proof {
        assert(quads@.take(nq as int) =~= quads@);
    }
    let nb = bills.len();
    let mut j: usize = 0;
    while j < nb
        invariant
            nq == quads@.len(),
            nb == bills@.len(),
            quads@ == spec_cube_quads(*ch, *n),
            bills@ == spec_billboards(*ch),
            nq <= 24576,
            nb <= 4096,
            j <= nb,
            forall|i: int| 0 <= i < bills@.len() ==> (#[trigger] bills@[i]).x < 16
                && bills@[i].y < 16 && bills@[i].z < 16,
            vertices@ == spec_verts_of_quads(quads@) + spec_verts_of_bills(bills@.take(j as int)),
            indices@ == spec_idx_of_quads(quads@) + spec_idx_of_bills(
                bills@.take(j as int),
                4 * nq as int,
            ),
            vertices@.len() == 4 * nq + 16 * j,
            indices@.len() == 6 * nq + 24 * j,
            forall|i: int| 0 <= i < indices@.len() ==> indices@[i] < vertices@.len(),
        decreases nb - j,
    {
        let c = bills[j];
        let ghost verts_before = vertices@;
        let ghost idx_before = indices@;
        emit_billboard(c, &mut vertices, &mut indices);
        proof {
            lemma_bill_geometry_len(bills@.take(j as int), 4 * nq as int);
            assert(bills@.take(j as int + 1).drop_last() =~= bills@.take(j as int));
            assert(bills@.take(j as int + 1).last() == c);
            assert(vertices@ =~= spec_verts_of_quads(quads@) + spec_verts_of_bills(
                bills@.take(j as int + 1),
            ));
            assert(indices@ =~= spec_idx_of_quads(quads@) + spec_idx_of_bills(
                bills@.take(j as int + 1),
                4 * nq as int,
            ));
            assert forall|i: int| 0 <= i < indices@.len() implies indices@[i] < vertices@.len() by {
                if i < idx_before.len() {
                    assert(indices@[i] == idx_before[i]);
                } else {
                    assert(indices@[i] == spec_billboard_indices(verts_before.len() as int)[i
                        - idx_before.len()]);
                }
            }
        }
        j += 1;
    }
    proof {
        assert(bills@.take(nb as int) =~= bills@);
    }
    MeshData { vertices, indices }
}


/// A byte whose block is solid is a table id: it canonicalizes to itself,
/// and no solid block is a non-cube decoration.
proof fn lemma_solid_canon(b: u8)
    requires
        spec_is_solid(spec_from_id(b)),
    ensures
        spec_canon(b) == b,
        b != 0,
        !spec_is_non_cube(spec_from_id(b)),
{
}

/// Greedy-merging a mask holding exactly one nonempty cell emits exactly
/// one 1x1 quad at that cell.
proof fn lemma_greedy_single_from(m: Seq<u8>, pos: int, p0: int, d: int, slice: int)
    requires
        m.len() == 256,
        0 <= pos <= p0 < 256,
        m[p0] != 0,
        forall|i: int| 0 <= i < 256 && i != p0 ==> m[i] == 0u8,
        0 <= d < 6,
        0 <= slice < 16,
    ensures
        spec_greedy(m, pos, d, slice) == seq![
            Quad {
                dir: d as u8,
                slice: slice as u8,
                u: (p0 % 16) as u8,
                v: (p0 / 16) as u8,
                w: 1u8,
                h: 1u8,
                block: m[p0],
            },
        ],
    decreases p0 - pos,
{
    let b = m[p0];
    let q = Quad {
        dir: d as u8,
        slice: slice as u8,
        u: (p0 % 16) as u8,
        v: (p0 / 16) as u8,
        w: 1u8,
        h: 1u8,
        block: b,
    };
    if pos < p0 {
        assert(m[pos] == 0u8);
        lemma_greedy_single_from(m, pos + 1, p0, d, slice);
    } else {
        let u = p0 % 16;
        let v = p0 / 16;
        if spec_is_transparent(spec_from_id(b)) {
            let m2 = m.update(p0, 0u8);
            assert(forall|i: int| p0 + 1 <= i < 256 ==> m2[i] == 0u8);
            lemma_greedy_of_zeros(m2, p0 + 1, d, slice);
            assert(spec_greedy(m, pos, d, slice) =~= seq![q]);
        } else {
            assert(v * 16 + u == p0);
            if u + 1 < 16 {
                assert(m[v * 16 + u + 1] == 0u8);
            }
            lemma_run_w_eq(m, v, u, b, 1);
            if v + 1 < 16 {
                assert(m[(v + 1) * 16 + u + 0] == 0u8);
                assert(!spec_row_match(m, v + 1, u, 1, b));
            }
            lemma_run_h_eq(m, v, u, 1, b, 1);
            let m2 = spec_clear_rect(m, u, v, 1, 1);
            assert(forall|i: int| p0 + 1 <= i < 256 ==> m2[i] == 0u8);
            lemma_greedy_of_zeros(m2, p0 + 1, d, slice);
            assert(spec_greedy(m, pos, d, slice) =~= seq![q]);
        }
    }
}

/// Greedy-merging a uniform mask of one opaque block emits exactly one
/// 16x16 quad.
proof fn lemma_greedy_full(m: Seq<u8>, d: int, slice: int, b: u8)
    requires
        m.len() == 256,
        b != 0,
        !spec_is_transparent(spec_from_id(b)),
        forall|i: int| 0 <= i < 256 ==> m[i] == b,
        0 <= d < 6,
        0 <= slice < 16,
    ensures
        spec_greedy(m, 0, d, slice) == seq![
            Quad {
                dir: d as u8,
                slice: slice as u8,
                u: 0u8,
                v: 0u8,
                w: 16u8,
                h: 16u8,
                block: b,
            },
        ],
{
    let q = Quad {
        dir: d as u8,
        slice: slice as u8,
        u: 0u8,
        v: 0u8,
        w: 16u8,
        h: 16u8,
        block: b,
    };
    assert(m[0] == b);
    assert forall|du: int| 0 <= du < 16 implies #[trigger] m[0 * 16 + 0 + du] == b by {}
    lemma_run_w_eq(m, 0, 0, b, 16);
    assert forall|dv: int| 0 <= dv < 16 implies #[trigger] spec_row_match(m, 0 + dv, 0, 16, b) by {
        assert forall|du: int| 0 <= du < 16 implies #[trigger] m[(0 + dv) * 16 + 0 + du] == b by {}
    }
    lemma_run_h_eq(m, 0, 0, 16, b, 16);
    let m2 = spec_clear_rect(m, 0, 0, 16, 16);
    assert forall|i: int| 1 <= i < 256 implies m2[i] == 0u8 by {
        assert(0 <= i % 16 < 16 && 0 <= i / 16 < 16);
    }
    lemma_greedy_of_zeros(m2, 1, d, slice);
    assert(spec_greedy(m, 0, d, slice) =~= seq![q]);
}

/// Transparent quads are never merged, at the level of one greedy merge.
proof fn lemma_greedy_transparent(m: Seq<u8>, pos: int, d: int, slice: int)
    requires
        m.len() == 256,
        0 <= pos <= 256,
    ensures
        forall|i: int|
            0 <= i < spec_greedy(m, pos, d, slice).len() && spec_is_transparent(
                spec_from_id((#[trigger] spec_greedy(m, pos, d, slice)[i]).block),
            ) ==> spec_greedy(m, pos, d, slice)[i].w == 1 && spec_greedy(m, pos, d, slice)[i].h
                == 1,
    decreases 256 - pos,
{
    if pos >= 256 {
    } else {
        let u = pos % 16;
        let v = pos / 16;
        let b = m[pos];
        if b == 0 {
            lemma_greedy_transparent(m, pos + 1, d, slice);
        } else if spec_is_transparent(spec_from_id(b)) {
            lemma_greedy_transparent(m.update(pos, 0u8), pos + 1, d, slice);
            let rest = spec_greedy(m.update(pos, 0u8), pos + 1, d, slice);
            let whole = spec_greedy(m, pos, d, slice);
            assert forall|i: int|
                0 <= i < whole.len() && spec_is_transparent(
                    spec_from_id((#[trigger] whole[i]).block),
                ) implies whole[i].w == 1 && whole[i].h == 1 by {
                if i > 0 {
                    assert(whole[i] == rest[i - 1]);
                }
            }
        } else {
            let w = spec_run_w(m, v, u, b);
            let h = spec_run_h(m, v, u, w, b);
            lemma_greedy_transparent(spec_clear_rect(m, u, v, w, h), pos + 1, d, slice);
            let rest = spec_greedy(spec_clear_rect(m, u, v, w, h), pos + 1, d, slice);
            let whole = spec_greedy(m, pos, d, slice);
            assert forall|i: int|
                0 <= i < whole.len() && spec_is_transparent(
                    spec_from_id((#[trigger] whole[i]).block),
                ) implies whole[i].w == 1 && whole[i].h == 1 by {
                if i > 0 {
                    assert(whole[i] == rest[i - 1]);
                }
            }
        }
    }
}

/// Transparency non-merging: a quad whose block is transparent is always
/// an isolated 1x1 quad, never part of a larger merged rectangle — so two
/// adjacent cells of the same transparent block keep separate quads.
pub proof fn lemma_transparency_never_merged(ch: Chunk, n: NeighborChunks)
    ensures
        forall|i: int|
            0 <= i < spec_cube_quads(ch, n).len() && spec_is_transparent(
                spec_from_id((#[trigger] spec_cube_quads(ch, n)[i]).block),
            ) ==> spec_cube_quads(ch, n)[i].w == 1 && spec_cube_quads(ch, n)[i].h == 1,
{
    lemma_transparent_from(ch, n, 0);
}

/// Transparency non-merging lifted over all 96 masks.
proof fn lemma_transparent_from(ch: Chunk, n: NeighborChunks, k: int)
    requires
        0 <= k <= 96,
    ensures
        forall|i: int|
            0 <= i < spec_quads_from(ch, n, k).len() && spec_is_transparent(
                spec_from_id((#[trigger] spec_quads_from(ch, n, k)[i]).block),
            ) ==> spec_quads_from(ch, n, k)[i].w == 1 && spec_quads_from(ch, n, k)[i].h == 1,
    decreases 96 - k,
{
    if k < 96 {
        let m = spec_mask(ch, n, k / 16, k % 16);
        lemma_greedy_transparent(m, 0, k / 16, k % 16);
        lemma_transparent_from(ch, n, k + 1);
        let head = spec_greedy(m, 0, k / 16, k % 16);
        let rest = spec_quads_from(ch, n, k + 1);
        let whole = spec_quads_from(ch, n, k);
        assert(whole == head + rest);
        assert forall|i: int|
            0 <= i < whole.len() && spec_is_transparent(
                spec_from_id((#[trigger] whole[i]).block),
            ) implies whole[i].w == 1 && whole[i].h == 1 by {
            if i < head.len() {
                assert(whole[i] == head[i]);
            } else {
                assert(whole[i] == rest[i - head.len()]);
            }
        }
    }
}


/// The slice, within a direction's sweep, that contains an isolated cell.
spec fn iso_s(d: int, x0: int, y0: int, z0: int) -> int {
    if d < 2 {
        x0
    } else if d < 4 {
        y0
    } else {
        z0
    }
}

/// The mask position of an isolated cell within its special slice.
spec fn iso_p(d: int, x0: int, y0: int, z0: int) -> int {
    if d < 2 {
        y0 * 16 + z0
    } else if d < 4 {
        z0 * 16 + x0
    } else {
        y0 * 16 + x0
    }
}

/// An isolated solid cell with no neighbors present: the chunk holding it.
pub open spec fn iso_chunk(ch: Chunk, x0: int, y0: int, z0: int, b: u8) -> bool {
    &&& crate::chunk::chunk_wf(ch)
    &&& 0 <= x0 < 16 && 0 <= y0 < 16 && 0 <= z0 < 16
    &&& spec_is_solid(spec_from_id(b))
    &&& ch@[spec_index(x0, y0, z0)] == b
    &&& forall|i: int| 0 <= i < 4096 && i != spec_index(x0, y0, z0) ==> ch@[i] == 0u8
}

/// No neighbor chunk present on any side.
pub open spec fn no_neighbors(n: NeighborChunks) -> bool {
    n.east is None && n.west is None && n.top is None && n.bottom is None && n.south is None
        && n.north is None
}

/// Mask shape around one isolated solid cell: each direction sees exactly
/// one visible face, in the cell's own slice, and every other mask cell is
/// empty.
proof fn lemma_iso_mask(
    ch: Chunk,
    n: NeighborChunks,
    x0: int,
    y0: int,
    z0: int,
    b: u8,
    d: int,
    s: int,
)
    requires
        iso_chunk(ch, x0, y0, z0, b),
        no_neighbors(n),
        0 <= d < 6,
        0 <= s < 16,
    ensures
        forall|i: int|
            0 <= i < 256 ==> #[trigger] spec_mask(ch, n, d, s)[i] == (if s == iso_s(d, x0, y0, z0)
                && i == iso_p(d, x0, y0, z0) {
                b
            } else {
                0u8
            }),
{
    lemma_solid_canon(b);
    let i0 = spec_index(x0, y0, z0);
    assert forall|i: int| 0 <= i < 256 implies #[trigger] spec_mask(ch, n, d, s)[i] == (if s
        == iso_s(d, x0, y0, z0) && i == iso_p(d, x0, y0, z0) {
        b
    } else {
        0u8
    }) by {
        let u = i % 16;
        let v = i / 16;
        let (x, y, z) = spec_cell_of(d, s, u, v);
        assert(0 <= u < 16 && 0 <= v < 16);
        assert(0 <= x < 16 && 0 <= y < 16 && 0 <= z < 16);
        if x == x0 && y == y0 && z == z0 {
            assert(s == iso_s(d, x0, y0, z0) && i == iso_p(d, x0, y0, z0));
            assert(spec_own_id(ch, d, s, u, v) == b);
            let far = spec_far_id(ch, n, d, s, u, v);
            if spec_dir_back(d) {
                if s != 0 {
                    let (fx, fy, fz) = spec_cell_of(d, s - 1, u, v);
                    assert(spec_index(fx, fy, fz) != i0);
                    assert(far == spec_canon(0u8));
                }
            } else {
                if s != 15 {
                    let (fx, fy, fz) = spec_cell_of(d, s + 1, u, v);
                    assert(spec_index(fx, fy, fz) != i0);
                    assert(far == spec_canon(0u8));
                }
            }
            assert(far == 0u8);
            assert(spec_face_visible(spec_from_id(b), BlockType::Air));
            assert(spec_mask(ch, n, d, s)[i] == b);
        } else {
            assert(spec_index(x, y, z) != i0);
            assert(spec_own_id(ch, d, s, u, v) == spec_canon(0u8));
            assert(!spec_face_visible(BlockType::Air, spec_from_id(spec_far_id(ch, n, d, s, u, v))));
            assert(spec_mask(ch, n, d, s)[i] == 0u8);
            assert(!(s == iso_s(d, x0, y0, z0) && i == iso_p(d, x0, y0, z0)));
        }
    }
}

/// Assembly of the isolated-cell masks over the sweep order.
proof fn lemma_iso_from(
    ch: Chunk,
    n: NeighborChunks,
    x0: int,
    y0: int,
    z0: int,
    b: u8,
    k: int,
)
    requires
        iso_chunk(ch, x0, y0, z0, b),
        no_neighbors(n),
        0 <= k <= 96,
    ensures
        spec_quads_from(ch, n, k).len() == (if x0 >= k {
            1int
        } else {
            0int
        }) + (if 16 + x0 >= k {
            1int
        } else {
            0int
        }) + (if 32 + y0 >= k {
            1int
        } else {
            0int
        }) + (if 48 + y0 >= k {
            1int
        } else {
            0int
        }) + (if 64 + z0 >= k {
            1int
        } else {
            0int
        }) + (if 80 + z0 >= k {
            1int
        } else {
            0int
        }),
        forall|i: int|
            0 <= i < spec_quads_from(ch, n, k).len() ==> (#[trigger] spec_quads_from(ch, n, k)[i]).w
                == 1 && spec_quads_from(ch, n, k)[i].h == 1 && spec_quads_from(ch, n, k)[i].block
                == b,
    decreases 96 - k,
{
    lemma_solid_canon(b);
    if k < 96 {
        let d = k / 16;
        let s = k % 16;
        lemma_iso_mask(ch, n, x0, y0, z0, b, d, s);
        let m = spec_mask(ch, n, d, s);
        lemma_iso_from(ch, n, x0, y0, z0, b, k + 1);
        let rest = spec_quads_from(ch, n, k + 1);
        let whole = spec_quads_from(ch, n, k);
        if s == iso_s(d, x0, y0, z0) {
            let p0 = iso_p(d, x0, y0, z0);
            assert(m[p0] == b);
            lemma_greedy_single_from(m, 0, p0, d, s);
            let head = spec_greedy(m, 0, d, s);
            assert(head.len() == 1 && head[0].w == 1 && head[0].h == 1 && head[0].block == b);
            assert(whole == head + rest);
            assert forall|i: int|
                0 <= i < whole.len() implies (#[trigger] whole[i]).w == 1 && whole[i].h == 1
                && whole[i].block == b by {
                if i == 0 {
                    assert(whole[i] == head[0]);
                } else {
                    assert(whole[i] == rest[i - 1]);
                }
            }
        } else {
            assert(forall|i: int| 0 <= i < 256 ==> m[i] == 0u8);
            lemma_greedy_of_zeros(m, 0, d, s);
            assert(whole =~= rest);
        }
    }
}

/// No billboards around one isolated solid cell.
proof fn lemma_iso_bills(ch: Chunk, x0: int, y0: int, z0: int, b: u8, k: int)
    requires
        iso_chunk(ch, x0, y0, z0, b),
        0 <= k <= 4096,
    ensures
        spec_billboards_from(ch, k) == Seq::<BillboardCell>::empty(),
    decreases 4096 - k,
{
    lemma_solid_canon(b);
    if k < 4096 {
        lemma_iso_bills(ch, x0, y0, z0, b, k + 1);
    }
}

/// Isolated-block face count: a chunk holding exactly one solid block,
/// surrounded entirely by air (no neighbor present), meshes to exactly six
/// cube quads, one per face direction, none merged, and no billboards — so
/// its mesh has exactly 24 vertices and 36 indices.
pub proof fn lemma_isolated_block_quads(
    ch: Chunk,
    n: NeighborChunks,
    x0: int,
    y0: int,
    z0: int,
    b: u8,
)
    requires
        iso_chunk(ch, x0, y0, z0, b),
        no_neighbors(n),
    ensures
        spec_cube_quads(ch, n).len() == 6,
        forall|i: int|
            0 <= i < 6 ==> (#[trigger] spec_cube_quads(ch, n)[i]).w == 1 && spec_cube_quads(
                ch,
                n,
            )[i].h == 1 && spec_cube_quads(ch, n)[i].block == b,
        spec_billboards(ch).len() == 0,
{
    lemma_iso_from(ch, n, x0, y0, z0, b, 0);
    lemma_iso_bills(ch, x0, y0, z0, b, 0);
}

/// A chunk holding one full horizontal layer of a single block.
pub open spec fn layer_chunk(c: Chunk, y0: int, b: u8) -> bool {
    &&& crate::chunk::chunk_wf(c)
    &&& forall|i: int|
        0 <= i < 4096 ==> c@[i] == (if i / 256 == y0 {
            b
        } else {
            0u8
        })
}

/// The neighbor set for the full-layer scenario: identical layer chunks on
/// all four horizontal sides, nothing above or below.
pub open spec fn layer_neighbors(n: NeighborChunks, y0: int, b: u8) -> bool {
    &&& n.east is Some && layer_chunk(n.east->Some_0, y0, b)
    &&& n.west is Some && layer_chunk(n.west->Some_0, y0, b)
    &&& n.south is Some && layer_chunk(n.south->Some_0, y0, b)
    &&& n.north is Some && layer_chunk(n.north->Some_0, y0, b)
    &&& n.top is None
    &&& n.bottom is None
}

/// Mask shape of the full-layer scenario: the top and bottom sweeps of the
/// layer's slice are entirely visible; every other mask is empty, because
/// horizontal faces always meet the same block, in this chunk or in the
/// identical neighbor across the edge.
proof fn lemma_layer_mask(ch: Chunk, n: NeighborChunks, y0: int, b: u8, d: int, s: int)
    requires
        layer_chunk(ch, y0, b),
        layer_neighbors(n, y0, b),
        0 <= y0 < 16,
        spec_is_solid(spec_from_id(b)),
        !spec_is_transparent(spec_from_id(b)),
        0 <= d < 6,
        0 <= s < 16,
    ensures
        forall|i: int|
            0 <= i < 256 ==> #[trigger] spec_mask(ch, n, d, s)[i] == (if (d == 2 || d == 3) && s
                == y0 {
                b
            } else {
                0u8
            }),
{
    lemma_solid_canon(b);
    assert forall|i: int| 0 <= i < 256 implies #[trigger] spec_mask(ch, n, d, s)[i] == (if (d == 2
        || d == 3) && s == y0 {
        b
    } else {
        0u8
    }) by {
        let u = i % 16;
        let v = i / 16;
        let (x, y, z) = spec_cell_of(d, s, u, v);
        assert(0 <= u < 16 && 0 <= v < 16);
        assert(0 <= x < 16 && 0 <= y < 16 && 0 <= z < 16);
        assert(spec_index(x, y, z) / 256 == y) by (nonlinear_arith)
            requires
                0 <= x < 16 && 0 <= y < 16 && 0 <= z < 16,
        ;
        let own = spec_own_id(ch, d, s, u, v);
        let far = spec_far_id(ch, n, d, s, u, v);
        if y == y0 {
            assert(own == b);
            if d == 2 || d == 3 {
                assert(s == y0);
                if d == 2 && s != 15 {
                    let (fx, fy, fz) = spec_cell_of(d, s + 1, u, v);
                    assert(fy == s + 1 && fy != y0);
                    assert(spec_index(fx, fy, fz) / 256 == fy) by (nonlinear_arith)
                        requires
                            0 <= fx < 16 && 0 <= fy < 16 && 0 <= fz < 16,
                    ;
                    assert(far == spec_canon(0u8));
                }
                if d == 3 && s != 0 {
                    let (fx, fy, fz) = spec_cell_of(d, s - 1, u, v);
                    assert(fy == s - 1 && fy != y0);
                    assert(spec_index(fx, fy, fz) / 256 == fy) by (nonlinear_arith)
                        requires
                            0 <= fx < 16 && 0 <= fy < 16 && 0 <= fz < 16,
                    ;
                    assert(far == spec_canon(0u8));
                }
                assert(far == 0u8);
                assert(spec_face_visible(spec_from_id(b), BlockType::Air));
            } else {
                // A horizontal face: the far cell lies in the same layer,
                // here or in the identical neighbor, so it holds b too.
                if spec_dir_back(d) {
                    if s == 0 {
                        let nb = spec_neighbor_of(n, d)->Some_0;
                        let (fx, fy, fz) = spec_cell_of(d, 15, u, v);
                        assert(fy == y0);
                        assert(spec_index(fx, fy, fz) / 256 == fy) by (nonlinear_arith)
                            requires
                                0 <= fx < 16 && 0 <= fy < 16 && 0 <= fz < 16,
                        ;
                        assert(far == spec_canon(b));
                    } else {
                        let (fx, fy, fz) = spec_cell_of(d, s - 1, u, v);
                        assert(fy == y0);
                        assert(spec_index(fx, fy, fz) / 256 == fy) by (nonlinear_arith)
                            requires
                                0 <= fx < 16 && 0 <= fy < 16 && 0 <= fz < 16,
                        ;
                        assert(far == spec_canon(b));
                    }
                } else {
                    if s == 15 {
                        let nb = spec_neighbor_of(n, d)->Some_0;
                        let (fx, fy, fz) = spec_cell_of(d, 0, u, v);
                        assert(fy == y0);
                        assert(spec_index(fx, fy, fz) / 256 == fy) by (nonlinear_arith)
                            requires
                                0 <= fx < 16 && 0 <= fy < 16 && 0 <= fz < 16,
                        ;
                        assert(far == spec_canon(b));
                    } else {
                        let (fx, fy, fz) = spec_cell_of(d, s + 1, u, v);
                        assert(fy == y0);
                        assert(spec_index(fx, fy, fz) / 256 == fy) by (nonlinear_arith)
                            requires
                                0 <= fx < 16 && 0 <= fy < 16 && 0 <= fz < 16,
                        ;
                        assert(far == spec_canon(b));
                    }
                }
                assert(far == b);
                assert(!spec_face_visible(spec_from_id(b), spec_from_id(b)));
                assert(spec_mask(ch, n, d, s)[i] == 0u8);
            }
        } else {
            assert(own == spec_canon(0u8));
            assert(!spec_face_visible(BlockType::Air, spec_from_id(far)));
            assert(spec_mask(ch, n, d, s)[i] == 0u8);
        }
    }
}

/// Assembly of the full-layer masks over the sweep order.
proof fn lemma_layer_from(ch: Chunk, n: NeighborChunks, y0: int, b: u8, k: int)
    requires
        layer_chunk(ch, y0, b),
        layer_neighbors(n, y0, b),
        0 <= y0 < 16,
        spec_is_solid(spec_from_id(b)),
        !spec_is_transparent(spec_from_id(b)),
        0 <= k <= 96,
    ensures
        spec_quads_from(ch, n, k) == (if 32 + y0 >= k {
            seq![
                Quad {
                    dir: 2u8,
                    slice: y0 as u8,
                    u: 0u8,
                    v: 0u8,
                    w: 16u8,
                    h: 16u8,
                    block: b,
                },
            ]
        } else {
            Seq::<Quad>::empty()
        }) + (if 48 + y0 >= k {
            seq![
                Quad {
                    dir: 3u8,
                    slice: y0 as u8,
                    u: 0u8,
                    v: 0u8,
                    w: 16u8,
                    h: 16u8,
                    block: b,
                },
            ]
        } else {
            Seq::<Quad>::empty()
        }),
    decreases 96 - k,
{
    lemma_solid_canon(b);
    if k < 96 {
        let d = k / 16;
        let s = k % 16;
        lemma_layer_mask(ch, n, y0, b, d, s);
        let m = spec_mask(ch, n, d, s);
        lemma_layer_from(ch, n, y0, b, k + 1);
        let rest = spec_quads_from(ch, n, k + 1);
        let whole = spec_quads_from(ch, n, k);
        if (d == 2 || d == 3) && s == y0 {
            assert(forall|i: int| 0 <= i < 256 ==> m[i] == b);
            lemma_greedy_full(m, d, s, b);
            assert(whole =~= spec_greedy(m, 0, d, s) + rest);
        } else {
            assert(forall|i: int| 0 <= i < 256 ==> m[i] == 0u8);
            lemma_greedy_of_zeros(m, 0, d, s);
            assert(whole =~= rest);
        }
        assert(whole =~= (if 32 + y0 >= k {
            seq![
                Quad {
                    dir: 2u8,
                    slice: y0 as u8,
                    u: 0u8,
                    v: 0u8,
                    w: 16u8,
                    h: 16u8,
                    block: b,
                },
            ]
        } else {
            Seq::<Quad>::empty()
        }) + (if 48 + y0 >= k {
            seq![
                Quad {
                    dir: 3u8,
                    slice: y0 as u8,
                    u: 0u8,
                    v: 0u8,
                    w: 16u8,
                    h: 16u8,
                    block: b,
                },
            ]
        } else {
            Seq::<Quad>::empty()
        }));
    }
}

/// No billboards in the full-layer scenario.
proof fn lemma_layer_bills(ch: Chunk, y0: int, b: u8, k: int)
    requires
        layer_chunk(ch, y0, b),
        spec_is_solid(spec_from_id(b)),
        0 <= k <= 4096,
    ensures
        spec_billboards_from(ch, k) == Seq::<BillboardCell>::empty(),
    decreases 4096 - k,
{
    lemma_solid_canon(b);
    if k < 4096 {
        lemma_layer_bills(ch, y0, b, k + 1);
    }
}

/// Greedy-merge correctness on a full layer: a complete 16x16 horizontal
/// layer of one opaque solid block, with air above and below and identical
/// solid neighbors across all four horizontal chunk edges, meshes to
/// exactly two fully merged 16x16 quads — the layer's top and bottom — and
/// zero side quads and zero billboards.
pub proof fn lemma_full_layer_quads(ch: Chunk, n: NeighborChunks, y0: int, b: u8)
    requires
        layer_chunk(ch, y0, b),
        layer_neighbors(n, y0, b),
        0 <= y0 < 16,
        spec_is_solid(spec_from_id(b)),
        !spec_is_transparent(spec_from_id(b)),
    ensures
        spec_cube_quads(ch, n) == seq![
            Quad { dir: 2u8, slice: y0 as u8, u: 0u8, v: 0u8, w: 16u8, h: 16u8, block: b },
            Quad { dir: 3u8, slice: y0 as u8, u: 0u8, v: 0u8, w: 16u8, h: 16u8, block: b },
        ],
        spec_billboards(ch).len() == 0,
{
    lemma_layer_from(ch, n, y0, b, 0);
    lemma_layer_bills(ch, y0, b, 0);
    assert(spec_cube_quads(ch, n) =~= seq![
        Quad { dir: 2u8, slice: y0 as u8, u: 0u8, v: 0u8, w: 16u8, h: 16u8, block: b },
        Quad { dir: 3u8, slice: y0 as u8, u: 0u8, v: 0u8, w: 16u8, h: 16u8, block: b },
    ]);
}

} // verus!
