//! The narrow services gameplay collaborators consume: read the block at a
//! world position, write one (marking its chunk dirty), and tag a
//! position's chunk — and any chunk sharing a boundary face there — for
//! remeshing.

use vstd::prelude::*;

use crate::block::{spec_from_id, BlockType};
use crate::chunk::{spec_index, CHUNK_SIZE};
use crate::coords::{
    spec_chunk_axis, spec_local_axis, world_to_chunk_pos, world_to_local_pos, ChunkPos, WorldPos,
};
use crate::store::{spec_store_dirty, spec_store_get, store_wf, ChunkStore};
use crate::stream::{plan_has, spec_loaded, StreamingManager};

verus! {

/// The chunk coordinate that owns a world cell.
pub open spec fn spec_owner(wp: WorldPos) -> (int, int, int) {
    (spec_chunk_axis(wp.x as int), spec_chunk_axis(wp.y as int), spec_chunk_axis(wp.z as int))
}

/// The block a store holds at a world cell; absent chunks read as air.
pub open spec fn spec_block_at(s: ChunkStore, wp: WorldPos) -> BlockType {
    let (cx, cy, cz) = spec_owner(wp);
    match spec_store_get(s, ChunkPos { x: cx as i32, y: cy as i32, z: cz as i32 }) {
        Some(c) => spec_from_id(
            c@[spec_index(
                spec_local_axis(wp.x as int),
                spec_local_axis(wp.y as int),
                spec_local_axis(wp.z as int),
            )],
        ),
        None => BlockType::Air,
    }
}

/// Read the block at a world position; positions in unloaded chunks read
/// as air.
pub fn read_block(store: &ChunkStore, wp: WorldPos) -> (r: BlockType)
    requires
        store_wf(*store),
    ensures
        r == spec_block_at(*store, wp),
{
    let c = world_to_chunk_pos(wp);
    let (lx, ly, lz) = world_to_local_pos(wp);
    store.get_block(c, lx, ly, lz)
}

/// Write the block at a world position and mark the owning chunk dirty;
/// positions in unloaded chunks are ignored. Exactly the addressed cell
/// changes: every other world cell reads as before.
pub fn write_block(store: &mut ChunkStore, wp: WorldPos, b: BlockType)
    requires
        store_wf(*old(store)),
    ensures
        store_wf(*final(store)),
        spec_block_at(*final(store), wp) == (if spec_store_get(
            *old(store),
            ChunkPos {
                x: spec_chunk_axis(wp.x as int) as i32,
                y: spec_chunk_axis(wp.y as int) as i32,
                z: spec_chunk_axis(wp.z as int) as i32,
            },
        ) is Some {
            b
        } else {
            BlockType::Air
        }),
        forall|q: WorldPos|
            q != wp ==> #[trigger] spec_block_at(*final(store), q) == spec_block_at(
                *old(store),
                q,
            ),
        forall|q: ChunkPos|
            q != (ChunkPos {
                x: spec_chunk_axis(wp.x as int) as i32,
                y: spec_chunk_axis(wp.y as int) as i32,
                z: spec_chunk_axis(wp.z as int) as i32,
            }) ==> #[trigger] spec_store_get(*final(store), q) == spec_store_get(*old(store), q)
                && spec_store_dirty(*final(store), q) == spec_store_dirty(*old(store), q),
        spec_store_get(
            *old(store),
            ChunkPos {
                x: spec_chunk_axis(wp.x as int) as i32,
                y: spec_chunk_axis(wp.y as int) as i32,
                z: spec_chunk_axis(wp.z as int) as i32,
            },
        ) is Some ==> spec_store_dirty(
            *final(store),
            ChunkPos {
                x: spec_chunk_axis(wp.x as int) as i32,
                y: spec_chunk_axis(wp.y as int) as i32,
                z: spec_chunk_axis(wp.z as int) as i32,
            },
        ),
    {
    let c = world_to_chunk_pos(wp);
    let (lx, ly, lz) = world_to_local_pos(wp);
    proof {
        assert(-134217728 <= wp.x as int / 16 <= 134217727 && -134217728 <= wp.y as int / 16
            <= 134217727 && -134217728 <= wp.z as int / 16 <= 134217727) by (nonlinear_arith)
            requires
                -2147483648 <= wp.x as int <= 2147483647,
                -2147483648 <= wp.y as int <= 2147483647,
                -2147483648 <= wp.z as int <= 2147483647,
        ;
        assert(c == (ChunkPos {
            x: spec_chunk_axis(wp.x as int) as i32,
            y: spec_chunk_axis(wp.y as int) as i32,
            z: spec_chunk_axis(wp.z as int) as i32,
        }));
    }
    store.set_block(c, lx, ly, lz, b);
    proof {
        vstd::arithmetic::div_mod::lemma_mod_bound(wp.x as int, 16);
        vstd::arithmetic::div_mod::lemma_mod_bound(wp.y as int, 16);
        vstd::arithmetic::div_mod::lemma_mod_bound(wp.z as int, 16);
        crate::block::lemma_id_roundtrip(b);
        if spec_store_get(*old(store), c) is Some {
            crate::store::lemma_store_get_wf(*old(store), c);
        }
        assert forall|q: WorldPos|
            q != wp implies #[trigger] spec_block_at(*store, q) == spec_block_at(
            *old(store),
            q,
        ) by {
            assert(-134217728 <= q.x as int / 16 <= 134217727 && -134217728 <= q.y as int / 16
                <= 134217727 && -134217728 <= q.z as int / 16 <= 134217727) by (nonlinear_arith)
                requires
                    -2147483648 <= q.x as int <= 2147483647,
                    -2147483648 <= q.y as int <= 2147483647,
                    -2147483648 <= q.z as int <= 2147483647,
            ;
            let cq = ChunkPos {
                x: spec_chunk_axis(q.x as int) as i32,
                y: spec_chunk_axis(q.y as int) as i32,
                z: spec_chunk_axis(q.z as int) as i32,
            };
            if cq == c {
                crate::coords::lemma_chunk_local_decompose(q.x as int);
                crate::coords::lemma_chunk_local_decompose(q.y as int);
                crate::coords::lemma_chunk_local_decompose(q.z as int);
                crate::coords::lemma_chunk_local_decompose(wp.x as int);
                crate::coords::lemma_chunk_local_decompose(wp.y as int);
                crate::coords::lemma_chunk_local_decompose(wp.z as int);
                // Same owning chunk but a different cell: some local axis
                // differs, so the updated index is not the one read.
                assert(spec_local_axis(q.x as int) != spec_local_axis(wp.x as int)
                    || spec_local_axis(q.y as int) != spec_local_axis(wp.y as int)
                    || spec_local_axis(q.z as int) != spec_local_axis(wp.z as int));
                if spec_store_get(*old(store), c) is Some {
                    crate::store::lemma_store_get_wf(*old(store), c);
                }
            }
        }
    }
}

/// Whether a chunk coordinate must be remeshed after an edit at a world
/// position: the owning chunk, and any neighbor sharing the boundary face
/// the edited cell touches.
pub open spec fn spec_remesh_target(wp: WorldPos, q: ChunkPos) -> bool {
    let (cx, cy, cz) = spec_owner(wp);
    let lx = spec_local_axis(wp.x as int);
    let ly = spec_local_axis(wp.y as int);
    let lz = spec_local_axis(wp.z as int);
    ||| (q.x == cx && q.y == cy && q.z == cz)
    ||| (q.y == cy && q.z == cz && ((lx == 0 && q.x == cx - 1) || (lx == 15 && q.x == cx + 1)))
    ||| (q.x == cx && q.z == cz && ((ly == 0 && q.y == cy - 1) || (ly == 15 && q.y == cy + 1)))
    ||| (q.x == cx && q.y == cy && ((lz == 0 && q.z == cz - 1) || (lz == 15 && q.z == cz + 1)))
}

/// Two managers with the same loaded list agree on what is loaded.
proof fn lemma_loaded_same(a: StreamingManager, b: StreamingManager)
    requires
        a.loaded() == b.loaded(),
    ensures
        forall|q: ChunkPos| spec_loaded(a, q) == spec_loaded(b, q),
{
    assert forall|q: ChunkPos| spec_loaded(a, q) == spec_loaded(b, q) by {
        if spec_loaded(a, q) {
            let w = choose|w: int| 0 <= w < a.loaded()@.len() && (#[trigger] a.loaded()@[w]).0 == q;
            assert(b.loaded()@[w].0 == q);
        }
        if spec_loaded(b, q) {
            let w = choose|w: int| 0 <= w < b.loaded()@.len() && (#[trigger] b.loaded()@[w]).0 == q;
            assert(a.loaded()@[w].0 == q);
        }
    }
}

/// Tag the chunk owning a world position, and any loaded neighbor sharing
/// a boundary face at that position, for remeshing: the tags grow by
/// exactly the loaded remesh targets of the position.
pub fn request_remesh(manager: &mut StreamingManager, wp: WorldPos)
    ensures
        final(manager).loaded() == old(manager).loaded(),
        crate::stream::manager_wf(*old(manager)) ==> crate::stream::manager_wf(*final(manager)),
        forall|q: ChunkPos|
            plan_has(old(manager).tags()@, q) ==> plan_has(final(manager).tags()@, q),
        forall|q: ChunkPos|
            spec_remesh_target(wp, q) && spec_loaded(*old(manager), q) ==> plan_has(
                final(manager).tags()@,
                q,
            ),
        forall|q: ChunkPos|
            plan_has(final(manager).tags()@, q) ==> plan_has(old(manager).tags()@, q)
                || spec_remesh_target(wp, q),
{
    let c = world_to_chunk_pos(wp);
    let (lx, ly, lz) = world_to_local_pos(wp);
    proof {
        assert(-134217728 <= c.x <= 134217727 && -134217728 <= c.y <= 134217727 && -134217728
            <= c.z <= 134217727) by (nonlinear_arith)
            requires
                c.x == wp.x as int / 16 && c.y == wp.y as int / 16 && c.z == wp.z as int / 16,
                -2147483648 <= wp.x as int <= 2147483647,
                -2147483648 <= wp.y as int <= 2147483647,
                -2147483648 <= wp.z as int <= 2147483647,
        ;
    }
    let ghost m0 = *manager;
    if manager.is_loaded(c) {
        manager.tag_remesh(c);
    }
    proof {
        lemma_loaded_same(*manager, m0);
    }
    if lx == 0 {
        let t = ChunkPos { x: c.x - 1, y: c.y, z: c.z };
        if manager.is_loaded(t) {
            manager.tag_remesh(t);
        }
    }
    proof {
        lemma_loaded_same(*manager, m0);
    }
    if lx == CHUNK_SIZE - 1 {
        let t = ChunkPos { x: c.x + 1, y: c.y, z: c.z };
        if manager.is_loaded(t) {
            manager.tag_remesh(t);
        }
    }
    proof {
        lemma_loaded_same(*manager, m0);
    }
    if ly == 0 {
        let t = ChunkPos { x: c.x, y: c.y - 1, z: c.z };
        if manager.is_loaded(t) {
            manager.tag_remesh(t);
        }
    }
    proof {
        lemma_loaded_same(*manager, m0);
    }
    if ly == CHUNK_SIZE - 1 {
        let t = ChunkPos { x: c.x, y: c.y + 1, z: c.z };
        if manager.is_loaded(t) {
            manager.tag_remesh(t);
        }
    }
    proof {
        lemma_loaded_same(*manager, m0);
    }
    if lz == 0 {
        let t = ChunkPos { x: c.x, y: c.y, z: c.z - 1 };
        if manager.is_loaded(t) {
            manager.tag_remesh(t);
        }
    }
    proof {
        lemma_loaded_same(*manager, m0);
    }
    if lz == CHUNK_SIZE - 1 {
        let t = ChunkPos { x: c.x, y: c.y, z: c.z + 1 };
        if manager.is_loaded(t) {
            manager.tag_remesh(t);
        }
    }
}

} // verus!
