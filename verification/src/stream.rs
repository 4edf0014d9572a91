//! The streaming manager: decides, each tick, which chunk coordinates
//! should be resident around the viewer, drives unloading (with synchronous
//! persistence of dirty chunks), plans a bounded batch of loads sorted by
//! distance, and tracks the renderable entity handle and remesh tag of each
//! loaded chunk. The outside work — reading or writing files, sampling
//! noise, spawning entities, running mesh builds — happens in the host
//! around these decisions.

use vstd::prelude::*;

use crate::chunk::{chunk_wf, Chunk};
use crate::codec::{encode_chunk_payload, gzip_of, spec_frame};
use crate::coords::ChunkPos;
use crate::mesh::NeighborChunks;
use crate::store::{spec_store_dirty, spec_store_get, store_wf, ChunkStore};

verus! {

/// Chunks within this XZ Chebyshev distance of the viewer should be
/// resident.
pub const RENDER_DISTANCE: i32 = 16;

/// Chunks beyond this XZ Chebyshev distance are unloaded; keeping it above
/// the render distance leaves a hysteresis band against load/unload
/// oscillation at the boundary.
pub const DESPAWN_DISTANCE: i32 = 18;

/// At most this many chunk loads are processed per tick.
pub const MAX_LOADS_PER_FRAME: usize = 8;

/// The world is this many chunks tall.
pub const WORLD_HEIGHT_CHUNKS: i32 = 16;

/// Tracks which chunk coordinates are resident, their renderable entity
/// handles, and which await remeshing.
pub struct StreamingManager {
    loaded: Vec<(ChunkPos, u64)>,
    needs_mesh: Vec<ChunkPos>,
    next_entity: u64,
    render_distance: i32,
    despawn_distance: i32,
    max_loads: usize,
    world_height: i32,
}

impl StreamingManager {
    /// The loaded coordinate/entity pairs, for specification.
    pub closed spec fn loaded(self) -> Vec<(ChunkPos, u64)> {
        self.loaded
    }

    /// The remesh tags, for specification.
    pub closed spec fn tags(self) -> Vec<ChunkPos> {
        self.needs_mesh
    }

    /// The configured render distance, for specification.
    pub closed spec fn render(self) -> int {
        self.render_distance as int
    }

    /// The configured despawn distance, for specification.
    pub closed spec fn despawn(self) -> int {
        self.despawn_distance as int
    }

    /// The configured per-tick load cap, for specification.
    pub closed spec fn load_cap(self) -> int {
        self.max_loads as int
    }

    /// The configured world height in chunks, for specification.
    pub closed spec fn height(self) -> int {
        self.world_height as int
    }
}

/// A coordinate is loaded at most once, and the configured distances are
/// sane: a positive render distance, a strictly larger despawn distance
/// (the hysteresis band), and a positive bounded world height.
pub open spec fn manager_wf(m: StreamingManager) -> bool {
    &&& forall|i: int, j: int|
        0 <= i < j < m.loaded()@.len() ==> (#[trigger] m.loaded()@[i]).0 != (
        #[trigger] m.loaded()@[j]).0
    &&& 0 < m.render() <= 2000
    &&& m.render() < m.despawn() <= 2000
    &&& 0 < m.height() <= 1024
    &&& 1 <= m.load_cap() <= 1000000
}

/// Whether a coordinate is currently loaded.
pub open spec fn spec_loaded(m: StreamingManager, p: ChunkPos) -> bool {
    exists|i: int| 0 <= i < m.loaded()@.len() && (#[trigger] m.loaded()@[i]).0 == p
}

/// Whether a coordinate should be resident for a viewer: inside the render
/// distance on both horizontal axes (Chebyshev, not Euclidean) and inside
/// the world's vertical span.
pub open spec fn spec_candidate(m: StreamingManager, v: ChunkPos, p: ChunkPos) -> bool {
    &&& v.x - m.render() <= p.x <= v.x + m.render()
    &&& v.z - m.render() <= p.z <= v.z + m.render()
    &&& 0 <= p.y < m.height()
}

/// Whether a coordinate is beyond a despawn distance of a viewer.
pub open spec fn spec_far_dist(d: int, v: ChunkPos, p: ChunkPos) -> bool {
    p.x - v.x > d || v.x - p.x > d || p.z - v.z > d || v.z - p.z > d
}

/// Whether a loaded coordinate is too far from the viewer to stay.
pub open spec fn spec_far(m: StreamingManager, v: ChunkPos, p: ChunkPos) -> bool {
    spec_far_dist(m.despawn(), v, p)
}

/// Squared horizontal distance from the viewer, for load ordering.
pub open spec fn spec_dist2(v: ChunkPos, p: ChunkPos) -> int {
    (p.x - v.x) * (p.x - v.x) + (p.z - v.z) * (p.z - v.z)
}

/// A viewer coordinate the planner accepts; keeps all the distance
/// arithmetic inside `i32`.
pub open spec fn viewer_in_bounds(v: ChunkPos) -> bool {
    -1000000 <= v.x <= 1000000 && -1000000 <= v.y <= 1000000 && -1000000 <= v.z <= 1000000
}

/// What one tick decided: entities to despawn, dirty chunk payloads to
/// write out, and the coordinates to load this tick, closest first.
pub struct TickPlan {
    pub despawned: Vec<(ChunkPos, u64)>,
    pub to_persist: Vec<(ChunkPos, Vec<u8>)>,
    pub to_load: Vec<ChunkPos>,
}

impl StreamingManager {
    /// A fresh manager with the given distances and caps: nothing loaded,
    /// nothing tagged.
    pub fn new(render_distance: i32, despawn_distance: i32, max_loads: usize, world_height: i32)
        -> (r: Self)
        requires
            0 < render_distance <= 2000,
            render_distance < despawn_distance <= 2000,
            0 < world_height <= 1024,
            1 <= max_loads <= 1000000,
        ensures
            manager_wf(r),
            forall|p: ChunkPos| !spec_loaded(r, p),
            r.tags()@.len() == 0,
            r.render() == render_distance,
            r.despawn() == despawn_distance,
            r.load_cap() == max_loads,
            r.height() == world_height,
    {
        StreamingManager {
            loaded: Vec::new(),
            needs_mesh: Vec::new(),
            next_entity: 1,
            render_distance,
            despawn_distance,
            max_loads,
            world_height,
        }
    }

    /// A manager with the engine's default distances and caps.
    pub fn with_defaults() -> (r: Self)
        ensures
            manager_wf(r),
            forall|p: ChunkPos| !spec_loaded(r, p),
            r.render() == RENDER_DISTANCE,
            r.despawn() == DESPAWN_DISTANCE,
            r.load_cap() == MAX_LOADS_PER_FRAME,
            r.height() == WORLD_HEIGHT_CHUNKS,
    {
        Self::new(RENDER_DISTANCE, DESPAWN_DISTANCE, MAX_LOADS_PER_FRAME, WORLD_HEIGHT_CHUNKS)
    }

    /// Whether a coordinate is currently loaded.
    pub fn is_loaded(&self, p: ChunkPos) -> (r: bool)
        ensures
            r == spec_loaded(*self, p),
    {
        let n = self.loaded.len();
        let mut i: usize = 0;
        while i < n
            invariant
                n == self.loaded()@.len(),
                i <= n,
                forall|j: int| 0 <= j < i ==> (#[trigger] self.loaded()@[j]).0 != p,
            decreases n - i,
        {
            if self.loaded[i].0 == p {
                return true;
            }
            i += 1;
        }
        false
    }

    /// The renderable entity handle of a loaded coordinate.
    pub fn entity_at(&self, p: ChunkPos) -> (r: Option<u64>)
        ensures
            r is Some <==> spec_loaded(*self, p),
            r is Some ==> exists|i: int|
                0 <= i < self.loaded()@.len() && #[trigger] self.loaded()@[i] == (p, r->Some_0),
    {
        let n = self.loaded.len();
        let mut i: usize = 0;
        while i < n
            invariant
                n == self.loaded()@.len(),
                i <= n,
                forall|j: int| 0 <= j < i ==> (#[trigger] self.loaded()@[j]).0 != p,
            decreases n - i,
        {
            if self.loaded[i].0 == p {
                let e = self.loaded[i].1;
                proof {
                    assert(self.loaded()@[i as int] == (p, e));
                }
                return Some(e);
            }
            i += 1;
        }
        None
    }

    /// Whether a mesh result for an entity should still be applied: only
    /// while that exact entity is the coordinate's current renderable.
    /// A stale or orphaned result is discarded silently.
    pub fn should_apply_mesh(&self, p: ChunkPos, entity: u64) -> (r: bool)
        ensures
            r == exists|i: int|
                0 <= i < self.loaded()@.len() && #[trigger] self.loaded()@[i] == (p, entity),
    {
        let n = self.loaded.len();
        let mut i: usize = 0;
        while i < n
            invariant
                n == self.loaded()@.len(),
                i <= n,
                forall|j: int| 0 <= j < i ==> #[trigger] self.loaded()@[j] != (p, entity),
            decreases n - i,
        {
            if self.loaded[i].0 == p && self.loaded[i].1 == entity {
                assert(self.loaded()@[i as int] == (p, entity));
                return true;
            }
            i += 1;
        }
        false
    }
}


impl StreamingManager {
    /// Unload every loaded coordinate beyond the despawn distance: its
    /// entity handle is returned for despawning, a dirty chunk's encoded
    /// payload is returned for synchronous persistence, and the chunk is
    /// evicted from the store. Everything within the despawn band is
    /// untouched.
    #[verifier::rlimit(80)]
    fn unload_far(&mut self, store: &mut ChunkStore, viewer: ChunkPos) -> (r: (
        Vec<(ChunkPos, u64)>,
        Vec<(ChunkPos, Vec<u8>)>,
    ))
        requires
            manager_wf(*old(self)),
            store_wf(*old(store)),
            viewer_in_bounds(viewer),
        ensures
            manager_wf(*final(self)),
            store_wf(*final(store)),
            final(self).tags() == old(self).tags(),
            final(self).render() == old(self).render() && final(self).despawn() == old(
                self,
            ).despawn() && final(self).load_cap() == old(self).load_cap() && final(self).height()
                == old(self).height(),
            forall|p: ChunkPos|
                spec_loaded(*final(self), p) <==> spec_loaded(*old(self), p) && !spec_far(
                    *old(self),
                    viewer,
                    p,
                ),
            forall|p: ChunkPos|
                !(spec_loaded(*old(self), p) && spec_far(*old(self), viewer, p)) ==> (
                #[trigger] spec_store_get(*final(store), p) == spec_store_get(*old(store), p)
                    && spec_store_dirty(*final(store), p) == spec_store_dirty(*old(store), p)),
            forall|p: ChunkPos|
                spec_loaded(*old(self), p) && spec_far(*old(self), viewer, p)
                    ==> #[trigger] spec_store_get(*final(store), p) is None && !spec_store_dirty(
                    *final(store),
                    p,
                ),
            forall|j: int|
                0 <= j < r.0@.len() ==> spec_far(*old(self), viewer, (#[trigger] r.0@[j]).0)
                    && spec_loaded(*old(self), r.0@[j].0),
            forall|j: int|
                0 <= j < r.1@.len() ==> spec_far(*old(self), viewer, (#[trigger] r.1@[j]).0)
                    && spec_loaded(*old(self), r.1@[j].0) && spec_store_dirty(
                    *old(store),
                    r.1@[j].0,
                ) && spec_store_get(*old(store), r.1@[j].0) is Some && r.1@[j].1@ == gzip_of(
                    spec_frame(spec_store_get(*old(store), r.1@[j].0)->Some_0@),
                ),
            forall|i: int|
                0 <= i < old(self).loaded()@.len() && spec_far(
                    *old(self),
                    viewer,
                    (#[trigger] old(self).loaded()@[i]).0,
                ) ==> exists|j: int| 0 <= j < r.0@.len() && #[trigger] r.0@[j] == old(
                    self,
                ).loaded()@[i],
            forall|i: int|
                0 <= i < old(self).loaded()@.len() && spec_far(
                    *old(self),
                    viewer,
                    (#[trigger] old(self).loaded()@[i]).0,
                ) && spec_store_dirty(*old(store), old(self).loaded()@[i].0) ==> exists|j: int|
                    0 <= j < r.1@.len() && (#[trigger] r.1@[j]).0 == old(self).loaded()@[i].0,
    {
        let ghost m0 = *self;
        let ghost s0 = *store;
        let mut old_loaded: Vec<(ChunkPos, u64)> = Vec::new();
        std::mem::swap(&mut old_loaded, &mut self.loaded);
        let n = old_loaded.len();
        let despawned = Self::collect_despawns(self.despawn_distance, viewer, &old_loaded);
        let to_persist = Self::collect_payloads(self.despawn_distance, viewer, &old_loaded, store);
        // Third pass: evict the far chunks and keep the near entries.
        let mut i3: usize = 0;
        while i3 < n
            invariant
                manager_wf(m0),
                viewer_in_bounds(viewer),
                old_loaded@ == m0.loaded()@,
                n == old_loaded@.len(),
                i3 <= n,
                store_wf(*store),
                self.tags() == m0.tags(),
                self.render() == m0.render() && self.despawn() == m0.despawn() && self.load_cap()
                    == m0.load_cap() && self.height() == m0.height(),
                forall|i2b: int, j2: int|
                    0 <= i2b < j2 < self.loaded()@.len() ==> (#[trigger] self.loaded()@[i2b]).0
                        != (#[trigger] self.loaded()@[j2]).0,
                // The kept entries are exactly the near entries of the prefix.
                forall|k: int|
                    0 <= k < self.loaded()@.len() ==> exists|j: int|
                        0 <= j < i3 && old_loaded@[j] == #[trigger] self.loaded()@[k] && !spec_far(
                            m0,
                            viewer,
                            self.loaded()@[k].0,
                        ),
                forall|j: int|
                    0 <= j < i3 && !spec_far(m0, viewer, (#[trigger] old_loaded@[j]).0)
                        ==> exists|k: int|
                        0 <= k < self.loaded()@.len() && #[trigger] self.loaded()@[k]
                            == old_loaded@[j],
                // Store: processed far entries evicted, everything else intact.
                forall|p: ChunkPos|
                    !(spec_far(m0, viewer, p) && exists|j: int|
                        0 <= j < i3 && (#[trigger] old_loaded@[j]).0 == p) ==> (
                    #[trigger] spec_store_get(*store, p) == spec_store_get(s0, p)
                        && spec_store_dirty(*store, p) == spec_store_dirty(s0, p)),
                forall|p: ChunkPos|
                    (spec_far(m0, viewer, p) && exists|j: int|
                        0 <= j < i3 && (#[trigger] old_loaded@[j]).0 == p)
                        ==> #[trigger] spec_store_get(*store, p) is None && !spec_store_dirty(
                        *store,
                        p,
                    ),
            decreases n - i3,
        {
            let (p, entity) = old_loaded[i3];
            proof {
                assert(old_loaded@[i3 as int] == (p, entity));
                assert(spec_loaded(m0, p));
            }
            let far = Self::is_far(self.despawn_distance, viewer, p);
            proof {
                assert(far == spec_far(m0, viewer, p));
            }
            if far {
                store.remove(p);
                proof {
                    assert forall|q: ChunkPos|
                        !(spec_far(m0, viewer, q) && exists|j: int|
                            0 <= j < i3 + 1 && (#[trigger] old_loaded@[j]).0 == q) implies (
                        #[trigger] spec_store_get(*store, q) == spec_store_get(s0, q)
                            && spec_store_dirty(*store, q) == spec_store_dirty(s0, q)) by {
                        assert(q != p);
                    }
                    assert forall|q: ChunkPos|
                        (spec_far(m0, viewer, q) && exists|j: int|
                            0 <= j < i3 + 1 && (#[trigger] old_loaded@[j]).0 == q)
                            implies #[trigger] spec_store_get(*store, q) is None
                        && !spec_store_dirty(*store, q) by {
                        if q != p {
                            let j = choose|j: int|
                                0 <= j < i3 + 1 && (#[trigger] old_loaded@[j]).0 == q;
                            assert(j < i3);
                        }
                    }
                }
            } else {
                let ghost kept_before = self.loaded()@;
                self.loaded.push((p, entity));
                proof {
                    assert(self.loaded()@ == kept_before.push((p, entity)));
                    assert forall|j: int|
                        0 <= j < i3 + 1 && !spec_far(m0, viewer, (#[trigger] old_loaded@[j]).0)
                        implies exists|k: int|
                        0 <= k < self.loaded()@.len() && #[trigger] self.loaded()@[k]
                            == old_loaded@[j] by {
                        if j == i3 {
                            assert(self.loaded()@[self.loaded()@.len() - 1] == old_loaded@[j]);
                        } else {
                            let k = choose|k: int|
                                0 <= k < kept_before.len() && #[trigger] kept_before[k]
                                    == old_loaded@[j];
                            assert(self.loaded()@[k] == old_loaded@[j]);
                        }
                    }
                    assert forall|i2b: int, j2: int|
                        0 <= i2b < j2 < self.loaded()@.len() implies (
                        #[trigger] self.loaded()@[i2b]).0 != (#[trigger] self.loaded()@[j2]).0 by {
                        if j2 == self.loaded()@.len() - 1 {
                            let w = choose|w: int|
                                0 <= w < i3 && #[trigger] old_loaded@[w] == self.loaded()@[i2b]
                                    && !spec_far(m0, viewer, self.loaded()@[i2b].0);
                            assert(old_loaded@[w].0 != old_loaded@[i3 as int].0);
                        }
                    }
                    assert forall|q: ChunkPos|
                        !(spec_far(m0, viewer, q) && exists|j: int|
                            0 <= j < i3 + 1 && (#[trigger] old_loaded@[j]).0 == q) implies (
                        #[trigger] spec_store_get(*store, q) == spec_store_get(s0, q)
                            && spec_store_dirty(*store, q) == spec_store_dirty(s0, q)) by {}
                    assert forall|q: ChunkPos|
                        (spec_far(m0, viewer, q) && exists|j: int|
                            0 <= j < i3 + 1 && (#[trigger] old_loaded@[j]).0 == q)
                            implies #[trigger] spec_store_get(*store, q) is None
                        && !spec_store_dirty(*store, q) by {
                        let j = choose|j: int| 0 <= j < i3 + 1 && (#[trigger] old_loaded@[j]).0 == q;
                        if j == i3 {
                            assert(!spec_far(m0, viewer, q));
                        } else {
                            assert(j < i3);
                        }
                    }
                }
            }
            i3 += 1;
        }
        proof {
            assert forall|p: ChunkPos|
                spec_loaded(*self, p) <==> spec_loaded(m0, p) && !spec_far(m0, viewer, p) by {
                if spec_loaded(*self, p) {
                    let k = choose|k: int|
                        0 <= k < self.loaded()@.len() && (#[trigger] self.loaded()@[k]).0 == p;
                    let j = choose|j: int|
                        0 <= j < i3 && old_loaded@[j] == self.loaded()@[k] && !spec_far(
                            m0,
                            viewer,
                            self.loaded()@[k].0,
                        );
                    assert(m0.loaded()@[j].0 == p);
                }
                if spec_loaded(m0, p) && !spec_far(m0, viewer, p) {
                    let j = choose|j: int|
                        0 <= j < m0.loaded()@.len() && (#[trigger] m0.loaded()@[j]).0 == p;
                    assert(old_loaded@[j].0 == p);
                    let k = choose|k: int|
                        0 <= k < self.loaded()@.len() && #[trigger] self.loaded()@[k]
                            == old_loaded@[j];
                    assert(self.loaded()@[k].0 == p);
                }
            }
        }
        (despawned, to_persist)
    }

    /// Every far entry of the loaded list, in order: the despawn batch.
    #[verifier::rlimit(80)]
    fn collect_despawns(
        despawn_distance: i32,
        viewer: ChunkPos,
        old_loaded: &Vec<(ChunkPos, u64)>,
    ) -> (r: Vec<(ChunkPos, u64)>)
        requires
            viewer_in_bounds(viewer),
            0 < despawn_distance <= 2000,
        ensures
            forall|k: int|
                #![trigger r@[k]]
                0 <= k < r@.len() ==> spec_far_dist(despawn_distance as int, viewer, r@[k].0)
                    && exists|j: int|
                    #![trigger old_loaded@[j]]
                    0 <= j < old_loaded@.len() && old_loaded@[j] == r@[k],
            forall|j: int|
                #![trigger old_loaded@[j]]
                0 <= j < old_loaded@.len() && spec_far_dist(
                    despawn_distance as int,
                    viewer,
                    old_loaded@[j].0,
                ) ==> exists|k: int| #![trigger r@[k]] 0 <= k < r@.len() && r@[k] == old_loaded@[j],
    {
        let ghost dd = despawn_distance as int;
        let n = old_loaded.len();
        let mut out: Vec<(ChunkPos, u64)> = Vec::new();
        let mut i: usize = 0;
        while i < n
            invariant
                viewer_in_bounds(viewer),
                0 < despawn_distance <= 2000,
                dd == despawn_distance as int,
                n == old_loaded@.len(),
                i <= n,
                forall|k: int|
                    #![trigger out@[k]]
                    0 <= k < out@.len() ==> spec_far_dist(dd, viewer, out@[k].0)
                        && exists|j: int|
                        #![trigger old_loaded@[j]]
                        0 <= j < i && old_loaded@[j] == out@[k],
                forall|j: int|
                    #![trigger old_loaded@[j]]
                    0 <= j < i && spec_far_dist(dd, viewer, old_loaded@[j].0) ==> exists|k: int|
                        #![trigger out@[k]]
                        0 <= k < out@.len() && out@[k] == old_loaded@[j],
            decreases n - i,
        {
            let (p, entity) = old_loaded[i];
            proof {
                assert(old_loaded@[i as int] == (p, entity));
            }
            if Self::is_far(despawn_distance, viewer, p) {
                let ghost before = out@;
                out.push((p, entity));
                proof {
                    assert(out@ == before.push((p, entity)));
                    assert(out@[out@.len() - 1] == old_loaded@[i as int]);
                    assert forall|k: int|
                        #![trigger out@[k]]
                        0 <= k < out@.len() implies spec_far_dist(dd, viewer, out@[k].0)
                        && exists|j: int|
                        #![trigger old_loaded@[j]]
                        0 <= j < i + 1 && old_loaded@[j] == out@[k] by {
                        if k < out@.len() - 1 {
                            assert(out@[k] == before[k]);
                            let j = choose|j: int|
                                #![trigger old_loaded@[j]]
                                0 <= j < i && old_loaded@[j] == before[k];
                            assert(old_loaded@[j] == out@[k]);
                        } else {
                            assert(old_loaded@[i as int] == out@[k]);
                        }
                    }
                    assert forall|j: int|
                        #![trigger old_loaded@[j]]
                        0 <= j < i + 1 && spec_far_dist(dd, viewer, old_loaded@[j].0)
                        implies exists|k: int|
                        #![trigger out@[k]]
                        0 <= k < out@.len() && out@[k] == old_loaded@[j] by {
                        if j < i {
                            let k = choose|k: int|
                                #![trigger before[k]]
                                0 <= k < before.len() && before[k] == old_loaded@[j];
                            assert(out@[k] == old_loaded@[j]);
                        } else {
                            assert(out@[out@.len() - 1] == old_loaded@[j]);
                        }
                    }
                }
            }
            i += 1;
        }
        proof {
            assert forall|k: int|
                #![trigger out@[k]]
                0 <= k < out@.len() implies spec_far_dist(dd, viewer, out@[k].0)
                && exists|j: int|
                #![trigger old_loaded@[j]]
                0 <= j < old_loaded@.len() && old_loaded@[j] == out@[k] by {
                let j = choose|j: int|
                    #![trigger old_loaded@[j]]
                    0 <= j < i && old_loaded@[j] == out@[k];
                assert(0 <= j < old_loaded@.len() && old_loaded@[j] == out@[k]);
            }
        }
        out
    }

    /// The encoded payload of every far dirty chunk, taken while the store
    /// still holds them all.
    #[verifier::rlimit(80)]
    fn collect_payloads(
        despawn_distance: i32,
        viewer: ChunkPos,
        old_loaded: &Vec<(ChunkPos, u64)>,
        store: &ChunkStore,
    ) -> (r: Vec<(ChunkPos, Vec<u8>)>)
        requires
            viewer_in_bounds(viewer),
            0 < despawn_distance <= 2000,
            store_wf(*store),
        ensures
            forall|k: int|
                #![trigger r@[k]]
                0 <= k < r@.len() ==> spec_far_dist(despawn_distance as int, viewer, r@[k].0)
                    && spec_store_dirty(*store, r@[k].0) && spec_store_get(
                    *store,
                    r@[k].0,
                ) is Some && r@[k].1@ == gzip_of(
                    spec_frame(spec_store_get(*store, r@[k].0)->Some_0@),
                ) && exists|j: int|
                    #![trigger old_loaded@[j]]
                    0 <= j < old_loaded@.len() && old_loaded@[j].0 == r@[k].0,
            forall|j: int|
                #![trigger old_loaded@[j]]
                0 <= j < old_loaded@.len() && spec_far_dist(
                    despawn_distance as int,
                    viewer,
                    old_loaded@[j].0,
                ) && spec_store_dirty(*store, old_loaded@[j].0) ==> exists|k: int|
                    #![trigger r@[k]]
                    0 <= k < r@.len() && r@[k].0 == old_loaded@[j].0,
    {
        let ghost dd = despawn_distance as int;
        let n = old_loaded.len();
        let mut out: Vec<(ChunkPos, Vec<u8>)> = Vec::new();
        let mut i: usize = 0;
        while i < n
            invariant
                viewer_in_bounds(viewer),
                0 < despawn_distance <= 2000,
                dd == despawn_distance as int,
                store_wf(*store),
                n == old_loaded@.len(),
                i <= n,
                forall|k: int|
                    #![trigger out@[k]]
                    0 <= k < out@.len() ==> spec_far_dist(dd, viewer, out@[k].0)
                        && spec_store_dirty(*store, out@[k].0) && spec_store_get(
                        *store,
                        out@[k].0,
                    ) is Some && out@[k].1@ == gzip_of(
                        spec_frame(spec_store_get(*store, out@[k].0)->Some_0@),
                    ) && exists|j: int|
                        #![trigger old_loaded@[j]]
                        0 <= j < i && old_loaded@[j].0 == out@[k].0,
                forall|j: int|
                    #![trigger old_loaded@[j]]
                    0 <= j < i && spec_far_dist(dd, viewer, old_loaded@[j].0)
                        && spec_store_dirty(*store, old_loaded@[j].0) ==> exists|k: int|
                        #![trigger out@[k]]
                        0 <= k < out@.len() && out@[k].0 == old_loaded@[j].0,
            decreases n - i,
        {
            let (p, _entity) = old_loaded[i];
            proof {
                assert(old_loaded@[i as int] == (p, _entity));
            }
            let ghost before = out@;
            if Self::is_far(despawn_distance, viewer, p) && store.is_dirty(p) {
                match store.get(p) {
                    Some(c) => {
                        let payload = encode_chunk_payload(&c);
                        out.push((p, payload));
                        proof {
                            assert(out@ == before.push((p, payload)));
                            assert((out@[out@.len() - 1]).0 == old_loaded@[i as int].0);
                        }
                    },
                    None => {
                        proof {
                            // A dirty coordinate is always resident.
                            let w = choose|w: int|
                                0 <= w < store.dirty()@.len() && #[trigger] store.dirty()@[w]
                                    == p;
                            assert(crate::store::assoc_get(store.entries()@, p) is Some);
                            assert(false);
                        }
                    },
                }
            }
            proof {
                assert forall|j: int|
                    #![trigger old_loaded@[j]]
                    0 <= j < i + 1 && spec_far_dist(dd, viewer, old_loaded@[j].0)
                        && spec_store_dirty(*store, old_loaded@[j].0) implies exists|k: int|
                    #![trigger out@[k]]
                    0 <= k < out@.len() && out@[k].0 == old_loaded@[j].0 by {
                    if j < i {
                        let k = choose|k: int|
                            #![trigger before[k]]
                            0 <= k < before.len() && before[k].0 == old_loaded@[j].0;
                        assert(out@[k].0 == old_loaded@[j].0);
                    } else {
                        assert(out@[out@.len() - 1].0 == old_loaded@[j].0);
                    }
                }
            }
            i += 1;
        }
        out
    }

    /// Whether a coordinate lies beyond the despawn distance of a viewer.
    fn is_far(despawn_distance: i32, viewer: ChunkPos, p: ChunkPos) -> (r: bool)
        requires
            viewer_in_bounds(viewer),
            0 < despawn_distance <= 2000,
        ensures
            r == (p.x - viewer.x > despawn_distance || viewer.x - p.x > despawn_distance || p.z
                - viewer.z > despawn_distance || viewer.z - p.z > despawn_distance),
    {
        let px = p.x as i64;
        let pz = p.z as i64;
        let vx = viewer.x as i64;
        let vz = viewer.z as i64;
        let dx: i64 = if px >= vx {
            px - vx
        } else {
            vx - px
        };
        let dz: i64 = if pz >= vz {
            pz - vz
        } else {
            vz - pz
        };
        dx > despawn_distance as i64 || dz > despawn_distance as i64
    }

}


/// Whether a coordinate list holds a coordinate.
pub open spec fn plan_has(s: Seq<ChunkPos>, p: ChunkPos) -> bool {
    exists|i: int| 0 <= i < s.len() && s[i] == p
}

/// Lexicographic scan order over the candidate box, for the enumeration
/// proof.
spec fn scanned_before(p: ChunkPos, x: int, z: int, y: int) -> bool {
    p.x < x || (p.x == x && (p.z < z || (p.z == z && p.y < y)))
}

impl StreamingManager {
    /// Every candidate coordinate that is not already loaded, in scan
    /// order: the complete load backlog for this viewer.
    fn collect_missing(&self, viewer: ChunkPos) -> (r: Vec<ChunkPos>)
        requires
            manager_wf(*self),
            viewer_in_bounds(viewer),
        ensures
            forall|j: int|
                0 <= j < r@.len() ==> spec_candidate(*self, viewer, #[trigger] r@[j])
                    && !spec_loaded(*self, r@[j]),
            forall|j1: int, j2: int| 0 <= j1 < j2 < r@.len() ==> r@[j1] != r@[j2],
            forall|p: ChunkPos|
                spec_candidate(*self, viewer, p) && !spec_loaded(*self, p) ==> plan_has(r@, p),
    {
        let mut out: Vec<ChunkPos> = Vec::new();
        let xmin = viewer.x - self.render_distance;
        let xmax = viewer.x + self.render_distance;
        let zmin = viewer.z - self.render_distance;
        let zmax = viewer.z + self.render_distance;
        let h = self.world_height;
        let mut x = xmin;
        while x <= xmax
            invariant
                manager_wf(*self),
                viewer_in_bounds(viewer),
                xmin == viewer.x - self.render() && xmax == viewer.x + self.render(),
                zmin == viewer.z - self.render() && zmax == viewer.z + self.render(),
                h == self.height(),
                xmin <= x <= xmax + 1,
                forall|j: int|
                    0 <= j < out@.len() ==> spec_candidate(*self, viewer, #[trigger] out@[j])
                        && !spec_loaded(*self, out@[j]) && scanned_before(out@[j], x as int, zmin as int, 0),
                forall|j1: int, j2: int| 0 <= j1 < j2 < out@.len() ==> out@[j1] != out@[j2],
                forall|p: ChunkPos|
                    spec_candidate(*self, viewer, p) && !spec_loaded(*self, p) && scanned_before(
                        p,
                        x as int,
                        zmin as int,
                        0,
                    ) ==> plan_has(out@, p),
            decreases xmax + 1 - x,
        {
            let mut z = zmin;
            while z <= zmax
                invariant
                    manager_wf(*self),
                    viewer_in_bounds(viewer),
                    xmin == viewer.x - self.render() && xmax == viewer.x + self.render(),
                    zmin == viewer.z - self.render() && zmax == viewer.z + self.render(),
                    h == self.height(),
                    xmin <= x <= xmax,
                    zmin <= z <= zmax + 1,
                    forall|j: int|
                        0 <= j < out@.len() ==> spec_candidate(*self, viewer, #[trigger] out@[j])
                            && !spec_loaded(*self, out@[j]) && scanned_before(out@[j], x as int, z as int, 0),
                    forall|j1: int, j2: int| 0 <= j1 < j2 < out@.len() ==> out@[j1] != out@[j2],
                    forall|p: ChunkPos|
                        spec_candidate(*self, viewer, p) && !spec_loaded(*self, p)
                            && scanned_before(p, x as int, z as int, 0) ==> plan_has(out@, p),
                decreases zmax + 1 - z,
            {
                let mut y: i32 = 0;
                while y < h
                    invariant
                        manager_wf(*self),
                        viewer_in_bounds(viewer),
                        xmin == viewer.x - self.render() && xmax == viewer.x + self.render(),
                        zmin == viewer.z - self.render() && zmax == viewer.z + self.render(),
                        h == self.height(),
                        xmin <= x <= xmax,
                        zmin <= z <= zmax,
                        0 <= y <= h,
                        forall|j: int|
                            0 <= j < out@.len() ==> spec_candidate(
                                *self,
                                viewer,
                                #[trigger] out@[j],
                            ) && !spec_loaded(*self, out@[j]) && scanned_before(
                                out@[j],
                                x as int,
                                z as int,
                                y as int,
                            ),
                        forall|j1: int, j2: int| 0 <= j1 < j2 < out@.len() ==> out@[j1] != out@[j2],
                        forall|p: ChunkPos|
                            spec_candidate(*self, viewer, p) && !spec_loaded(*self, p)
                                && scanned_before(p, x as int, z as int, y as int) ==> plan_has(
                                out@,
                                p,
                            ),
                    decreases h - y,
                {
                    let p = ChunkPos { x, y, z };
                    let ghost out_before = out@;
                    if !self.is_loaded(p) {
                        out.push(p);
                        proof {
                            assert(out@ == out_before.push(p));
                            assert(out@[out@.len() - 1] == p);
                            assert forall|q: ChunkPos|
                                spec_candidate(*self, viewer, q) && !spec_loaded(*self, q)
                                    && scanned_before(q, x as int, z as int, y as int + 1)
                                implies plan_has(out@, q) by {
                                if scanned_before(q, x as int, z as int, y as int) {
                                    let w = choose|w: int|
                                        0 <= w < out_before.len() && out_before[w] == q;
                                    assert(out@[w] == q);
                                } else {
                                    assert(q == p);
                                    assert(out@[out@.len() - 1] == q);
                                }
                            }
                        }
                    } else {
                        proof {
                            assert forall|q: ChunkPos|
                                spec_candidate(*self, viewer, q) && !spec_loaded(*self, q)
                                    && scanned_before(q, x as int, z as int, y as int + 1)
                                implies plan_has(out@, q) by {
                                if !scanned_before(q, x as int, z as int, y as int) {
                                    assert(q == p);
                                }
                            }
                        }
                    }
                    y += 1;
                }
                proof {
                    assert forall|q: ChunkPos|
                        spec_candidate(*self, viewer, q) && !spec_loaded(*self, q)
                            && scanned_before(q, x as int, z as int + 1, 0) implies plan_has(
                        out@,
                        q,
                    ) by {
                        assert(scanned_before(q, x as int, z as int, h as int));
                    }
                    assert forall|j: int|
                        0 <= j < out@.len() implies scanned_before(
                        #[trigger] out@[j],
                        x as int,
                        z as int + 1,
                        0,
                    ) by {
                        assert(spec_candidate(*self, viewer, out@[j]));
                    }
                }
                z += 1;
            }
            proof {
                assert forall|q: ChunkPos|
                    spec_candidate(*self, viewer, q) && !spec_loaded(*self, q) && scanned_before(
                        q,
                        x as int + 1,
                        zmin as int,
                        0,
                    ) implies plan_has(out@, q) by {
                    assert(scanned_before(q, x as int, zmax as int + 1, 0));
                }
                assert forall|j: int|
                    0 <= j < out@.len() implies scanned_before(
                    #[trigger] out@[j],
                    x as int + 1,
                    zmin as int,
                    0,
                ) by {
                    assert(spec_candidate(*self, viewer, out@[j]));
                }
            }
            x += 1;
        }
        proof {
            assert forall|p: ChunkPos|
                spec_candidate(*self, viewer, p) && !spec_loaded(*self, p) implies plan_has(
                out@,
                p,
            ) by {
                assert(scanned_before(p, xmax as int + 1, zmin as int, 0));
            }
        }
        out
    }

    /// Pick the up-to-`max_loads` closest coordinates out of the backlog,
    /// ascending by squared horizontal distance. When the backlog is small
    /// enough, everything in it is picked — the load queue drains.
    fn select_closest(&self, viewer: ChunkPos, missing: Vec<ChunkPos>) -> (r: Vec<ChunkPos>)
        requires
            manager_wf(*self),
            viewer_in_bounds(viewer),
            forall|j: int|
                0 <= j < missing@.len() ==> spec_candidate(*self, viewer, #[trigger] missing@[j]),
            forall|j1: int, j2: int| 0 <= j1 < j2 < missing@.len() ==> missing@[j1] != missing@[j2],
        ensures
            r@.len() == if missing@.len() <= self.load_cap() {
                missing@.len() as int
            } else {
                self.load_cap()
            },
            forall|j: int| 0 <= j < r@.len() ==> plan_has(missing@, #[trigger] r@[j]),
            forall|j1: int, j2: int| 0 <= j1 < j2 < r@.len() ==> r@[j1] != r@[j2],
            forall|j1: int, j2: int|
                0 <= j1 < j2 < r@.len() ==> spec_dist2(viewer, r@[j1]) <= spec_dist2(
                    viewer,
                    r@[j2],
                ),
            r@.len() < self.load_cap() ==> forall|p: ChunkPos|
                plan_has(missing@, p) ==> plan_has(r@, p),
            forall|a: int, p: ChunkPos|
                0 <= a < r@.len() && plan_has(missing@, p) && !plan_has(r@, p) ==> spec_dist2(
                    viewer,
                    #[trigger] r@[a],
                ) <= #[trigger] spec_dist2(viewer, p),
    {
        let mut work = missing;
        let ghost all = work@;
        let mut out: Vec<ChunkPos> = Vec::new();
        while out.len() < self.max_loads && work.len() > 0
            invariant
                manager_wf(*self),
                viewer_in_bounds(viewer),
                out@.len() + work@.len() == all.len(),
                out@.len() <= self.load_cap(),
                forall|j: int|
                    0 <= j < work@.len() ==> spec_candidate(*self, viewer, #[trigger] work@[j]),
                forall|j: int|
                    0 <= j < out@.len() ==> spec_candidate(*self, viewer, #[trigger] out@[j]),
                forall|j: int| 0 <= j < work@.len() ==> plan_has(all, #[trigger] work@[j]),
                forall|j: int| 0 <= j < out@.len() ==> plan_has(all, #[trigger] out@[j]),
                forall|p: ChunkPos| plan_has(all, p) ==> plan_has(out@, p) || plan_has(work@, p),
                forall|j1: int, j2: int| 0 <= j1 < j2 < work@.len() ==> work@[j1] != work@[j2],
                forall|j1: int, j2: int| 0 <= j1 < j2 < out@.len() ==> out@[j1] != out@[j2],
                forall|j1: int, j2: int|
                    0 <= j1 < out@.len() && 0 <= j2 < work@.len() ==> out@[j1] != work@[j2],
                forall|j1: int, j2: int|
                    0 <= j1 < j2 < out@.len() ==> spec_dist2(viewer, out@[j1]) <= spec_dist2(
                        viewer,
                        out@[j2],
                    ),
                forall|j1: int, j2: int|
                    0 <= j1 < out@.len() && 0 <= j2 < work@.len() ==> spec_dist2(
                        viewer,
                        out@[j1],
                    ) <= spec_dist2(viewer, work@[j2]),
            decreases work@.len(),
        {
            // Find the closest remaining coordinate.
            let mut best: usize = 0;
            let mut k: usize = 1;
            while k < work.len()
                invariant
                    manager_wf(*self),
                    viewer_in_bounds(viewer),
                    forall|j: int|
                        0 <= j < work@.len() ==> spec_candidate(
                            *self,
                            viewer,
                            #[trigger] work@[j],
                        ),
                    work@.len() > 0,
                    best < k <= work@.len() || (best == 0 && k <= work@.len()),
                    best < work@.len(),
                    forall|j: int|
                        0 <= j < k ==> spec_dist2(viewer, work@[best as int]) <= spec_dist2(
                            viewer,
                            #[trigger] work@[j],
                        ),
                decreases work@.len() - k,
            {
                let a = work[k];
                let bsf = work[best];
                proof {
                    assert(spec_candidate(*self, viewer, work@[k as int]));
                    assert(spec_candidate(*self, viewer, work@[best as int]));
                }
                let dax = a.x as i64 - viewer.x as i64;
                let daz = a.z as i64 - viewer.z as i64;
                let dbx = bsf.x as i64 - viewer.x as i64;
                let dbz = bsf.z as i64 - viewer.z as i64;
                proof {
                    assert(-2000 <= dax <= 2000 && -2000 <= daz <= 2000 && -2000 <= dbx <= 2000
                        && -2000 <= dbz <= 2000);
                    assert(0 <= dax * dax <= 4000000 && 0 <= daz * daz <= 4000000 && 0 <= dbx
                        * dbx <= 4000000 && 0 <= dbz * dbz <= 4000000) by (nonlinear_arith)
                        requires
                            -2000 <= dax <= 2000,
                            -2000 <= daz <= 2000,
                            -2000 <= dbx <= 2000,
                            -2000 <= dbz <= 2000,
                    ;
                }
                if dax * dax + daz * daz < dbx * dbx + dbz * dbz {
                    best = k;
                }
                k += 1;
            }
            let ghost work_before = work@;
            let ghost out_before = out@;
            let chosen = work.remove(best);
            out.push(chosen);
            proof {
                assert(work@ == work_before.remove(best as int));
                assert(out@ == out_before.push(chosen));
                assert(chosen == work_before[best as int]);
                assert forall|p: ChunkPos|
                    plan_has(all, p) implies plan_has(out@, p) || plan_has(work@, p) by {
                    if plan_has(out_before, p) {
                        let w = choose|w: int| 0 <= w < out_before.len() && out_before[w] == p;
                        assert(out@[w] == p);
                    } else if plan_has(work_before, p) {
                        let w = choose|w: int| 0 <= w < work_before.len() && work_before[w] == p;
                        if w == best {
                            assert(out@[out@.len() - 1] == p);
                        } else if w < best {
                            assert(work@[w] == p);
                        } else {
                            assert(work@[w - 1] == p);
                        }
                    }
                }
                assert forall|j: int|
                    0 <= j < work@.len() implies spec_candidate(
                    *self,
                    viewer,
                    #[trigger] work@[j],
                ) && plan_has(all, work@[j]) by {
                    if j < best {
                        assert(work@[j] == work_before[j]);
                    } else {
                        assert(work@[j] == work_before[j + 1]);
                    }
                }
                assert forall|j1: int, j2: int|
                    0 <= j1 < j2 < work@.len() implies work@[j1] != work@[j2] by {
                    let a1 = if j1 < best {
                        j1
                    } else {
                        j1 + 1
                    };
                    let a2 = if j2 < best {
                        j2
                    } else {
                        j2 + 1
                    };
                    assert(work@[j1] == work_before[a1]);
                    assert(work@[j2] == work_before[a2]);
                }
                assert forall|j1: int, j2: int|
                    0 <= j1 < out@.len() && 0 <= j2 < work@.len() implies out@[j1] != work@[j2]
                    by {
                    let a2 = if j2 < best {
                        j2
                    } else {
                        j2 + 1
                    };
                    assert(work@[j2] == work_before[a2]);
                    if j1 < out_before.len() {
                        assert(out@[j1] == out_before[j1]);
                    } else {
                        assert(out@[j1] == work_before[best as int]);
                    }
                }
                assert forall|j1: int, j2: int|
                    0 <= j1 < out@.len() && 0 <= j2 < work@.len() implies spec_dist2(
                    viewer,
                    out@[j1],
                ) <= spec_dist2(viewer, work@[j2]) by {
                    let a2 = if j2 < best {
                        j2
                    } else {
                        j2 + 1
                    };
                    assert(work@[j2] == work_before[a2]);
                    if j1 < out_before.len() {
                        assert(out@[j1] == out_before[j1]);
                    } else {
                        assert(out@[j1] == work_before[best as int]);
                        assert(spec_dist2(viewer, work_before[best as int]) <= spec_dist2(
                            viewer,
                            work_before[a2],
                        ));
                    }
                }
                assert forall|j1: int, j2: int|
                    0 <= j1 < j2 < out@.len() implies spec_dist2(viewer, out@[j1]) <= spec_dist2(
                    viewer,
                    out@[j2],
                ) by {
                    if j2 == out@.len() - 1 {
                        assert(out@[j1] == out_before[j1]);
                        assert(out@[j2] == work_before[best as int]);
                    }
                }
            }
        }
        proof {
            if out@.len() < self.load_cap() {
                assert(work@.len() == 0);
                assert forall|p: ChunkPos| plan_has(all, p) implies plan_has(out@, p) by {
                    assert(!plan_has(work@, p));
                }
            }
            assert forall|a: int, p: ChunkPos|
                0 <= a < out@.len() && plan_has(all, p) && !plan_has(out@, p) implies spec_dist2(
                viewer,
                #[trigger] out@[a],
            ) <= #[trigger] spec_dist2(viewer, p) by {
                // An unplanned backlog element still sits in the worklist,
                // and everything planned is at most as far as the worklist.
                let w = choose|w: int| 0 <= w < work@.len() && work@[w] == p;
                assert(spec_dist2(viewer, out@[a]) <= spec_dist2(viewer, work@[w]));
            }
        }
        out
    }

    /// One streaming tick for a viewer chunk coordinate: unload and evict
    /// everything beyond the despawn distance (returning entity handles to
    /// despawn and dirty chunks' encoded payloads to write), and plan up to
    /// the per-tick cap of loads — the closest missing candidates first.
    /// When the plan is smaller than the cap, it holds the entire backlog.
    pub fn plan_tick(&mut self, store: &mut ChunkStore, viewer: ChunkPos) -> (r: TickPlan)
        requires
            manager_wf(*old(self)),
            store_wf(*old(store)),
            viewer_in_bounds(viewer),
        ensures
            manager_wf(*final(self)),
            store_wf(*final(store)),
            final(self).render() == old(self).render() && final(self).despawn() == old(
                self,
            ).despawn() && final(self).load_cap() == old(self).load_cap() && final(self).height()
                == old(self).height(),
            forall|p: ChunkPos|
                spec_loaded(*final(self), p) <==> spec_loaded(*old(self), p) && !spec_far(
                    *old(self),
                    viewer,
                    p,
                ),
            forall|p: ChunkPos|
                !(spec_loaded(*old(self), p) && spec_far(*old(self), viewer, p)) ==> (
                #[trigger] spec_store_get(*final(store), p) == spec_store_get(*old(store), p)
                    && spec_store_dirty(*final(store), p) == spec_store_dirty(*old(store), p)),
            forall|p: ChunkPos|
                spec_loaded(*old(self), p) && spec_far(*old(self), viewer, p)
                    ==> #[trigger] spec_store_get(*final(store), p) is None,
            forall|j: int|
                0 <= j < r.to_load@.len() ==> spec_candidate(
                    *final(self),
                    viewer,
                    #[trigger] r.to_load@[j],
                ) && !spec_loaded(*final(self), r.to_load@[j]),
            forall|j1: int, j2: int|
                0 <= j1 < j2 < r.to_load@.len() ==> r.to_load@[j1] != r.to_load@[j2],
            forall|j1: int, j2: int|
                0 <= j1 < j2 < r.to_load@.len() ==> spec_dist2(viewer, r.to_load@[j1])
                    <= spec_dist2(viewer, r.to_load@[j2]),
            r.to_load@.len() <= old(self).load_cap(),
            r.to_load@.len() < old(self).load_cap() ==> forall|p: ChunkPos|
                spec_candidate(*final(self), viewer, p) && !spec_loaded(*final(self), p)
                    ==> plan_has(r.to_load@, p),
            forall|j: int|
                0 <= j < r.despawned@.len() ==> spec_far(
                    *old(self),
                    viewer,
                    (#[trigger] r.despawned@[j]).0,
                ) && spec_loaded(*old(self), r.despawned@[j].0),
            forall|j: int|
                0 <= j < r.to_persist@.len() ==> spec_far(
                    *old(self),
                    viewer,
                    (#[trigger] r.to_persist@[j]).0,
                ) && spec_loaded(*old(self), r.to_persist@[j].0) && spec_store_dirty(
                    *old(store),
                    r.to_persist@[j].0,
                ) && spec_store_get(*old(store), r.to_persist@[j].0) is Some && r.to_persist@[
                    j
                ].1@ == gzip_of(spec_frame(spec_store_get(*old(store), r.to_persist@[j].0)->Some_0@)),
            // Completeness: every loaded far pair is handed back for
            // despawning, and every loaded far dirty chunk's payload is
            // handed back for persistence before its eviction.
            forall|i: int|
                0 <= i < old(self).loaded()@.len() && spec_far(
                    *old(self),
                    viewer,
                    (#[trigger] old(self).loaded()@[i]).0,
                ) ==> exists|j: int|
                    #![trigger r.despawned@[j]]
                    0 <= j < r.despawned@.len() && r.despawned@[j] == old(self).loaded()@[i],
            forall|i: int|
                0 <= i < old(self).loaded()@.len() && spec_far(
                    *old(self),
                    viewer,
                    (#[trigger] old(self).loaded()@[i]).0,
                ) && spec_store_dirty(*old(store), old(self).loaded()@[i].0) ==> exists|j: int|
                    #![trigger r.to_persist@[j]]
                    0 <= j < r.to_persist@.len() && r.to_persist@[j].0 == old(self).loaded()@[
                        i
                    ].0,
            // The plan is minimal: every unplanned missing candidate is at
            // least as far as every planned one.
            forall|a: int, p: ChunkPos|
                0 <= a < r.to_load@.len() && spec_candidate(*final(self), viewer, p)
                    && !spec_loaded(*final(self), p) && !plan_has(r.to_load@, p) ==> spec_dist2(
                    viewer,
                    #[trigger] r.to_load@[a],
                ) <= #[trigger] spec_dist2(viewer, p),
    {
        let (despawned, to_persist) = self.unload_far(store, viewer);
        let missing = self.collect_missing(viewer);
        let to_load = self.select_closest(viewer, missing);
        let plan = TickPlan { despawned, to_persist, to_load };
        proof {
            assert forall|i: int|
                0 <= i < old(self).loaded()@.len() && spec_far(
                    *old(self),
                    viewer,
                    (#[trigger] old(self).loaded()@[i]).0,
                ) implies exists|j: int|
                #![trigger plan.despawned@[j]]
                0 <= j < plan.despawned@.len() && plan.despawned@[j] == old(self).loaded()@[
                    i
                ] by {
                let j = choose|j: int|
                    0 <= j < plan.despawned@.len() && #[trigger] plan.despawned@[j] == old(
                        self,
                    ).loaded()@[i];
                assert(plan.despawned@[j] == old(self).loaded()@[i]);
            }
            assert forall|i: int|
                0 <= i < old(self).loaded()@.len() && spec_far(
                    *old(self),
                    viewer,
                    (#[trigger] old(self).loaded()@[i]).0,
                ) && spec_store_dirty(*old(store), old(self).loaded()@[i].0) implies exists|j: int|
                #![trigger plan.to_persist@[j]]
                0 <= j < plan.to_persist@.len() && plan.to_persist@[j].0 == old(
                    self,
                ).loaded()@[i].0 by {
                let j = choose|j: int|
                    0 <= j < plan.to_persist@.len() && (#[trigger] plan.to_persist@[j]).0
                        == old(self).loaded()@[i].0;
                assert(plan.to_persist@[j].0 == old(self).loaded()@[i].0);
            }
        }
        plan
    }

    /// Finish loading one chunk the plan asked for: make it resident in
    /// the store, give it a fresh renderable entity handle, and tag it for
    /// meshing. A coordinate that is already loaded is left untouched.
    pub fn complete_load(&mut self, store: &mut ChunkStore, p: ChunkPos, c: Chunk) -> (r: Option<
        u64,
    >)
        requires
            manager_wf(*old(self)),
            store_wf(*old(store)),
            chunk_wf(c),
        ensures
            manager_wf(*final(self)),
            store_wf(*final(store)),
            final(self).render() == old(self).render() && final(self).despawn() == old(
                self,
            ).despawn() && final(self).load_cap() == old(self).load_cap() && final(self).height()
                == old(self).height(),
            spec_loaded(*old(self), p) ==> r is None && *final(self) == *old(self)
                && *final(store) == *old(store),
            !spec_loaded(*old(self), p) ==> r is Some,
            !spec_loaded(*old(self), p) ==> forall|q: ChunkPos|
                #[trigger] spec_loaded(*final(self), q) <==> (spec_loaded(*old(self), q) || q
                    == p),
            !spec_loaded(*old(self), p) ==> spec_store_get(*final(store), p) == Some(c),
            !spec_loaded(*old(self), p) ==> forall|q: ChunkPos|
                q != p ==> #[trigger] spec_store_get(*final(store), q) == spec_store_get(
                    *old(store),
                    q,
                ),
            !spec_loaded(*old(self), p) ==> plan_has(final(self).tags()@, p),
    {
        if self.is_loaded(p) {
            return None;
        }
        let e = self.next_entity;
        self.next_entity = if self.next_entity == u64::MAX {
            1
        } else {
            self.next_entity + 1
        };
        let ghost m0 = *self;
        proof {
            assert(m0.loaded() == old(self).loaded());
            assert(!spec_loaded(m0, p));
        }
        self.loaded.push((p, e));
        proof {
            assert(self.loaded()@ == m0.loaded()@.push((p, e)));
            assert(self.loaded()@[self.loaded()@.len() - 1] == (p, e));
            assert forall|i2: int, j2: int|
                0 <= i2 < j2 < self.loaded()@.len() implies (#[trigger] self.loaded()@[i2]).0
                != (#[trigger] self.loaded()@[j2]).0 by {
                if j2 == self.loaded()@.len() - 1 {
                    assert(self.loaded()@[i2] == m0.loaded()@[i2]);
                    if self.loaded()@[i2].0 == p {
                        assert(m0.loaded()@[i2].0 == p);
                        assert(spec_loaded(m0, p));
                    }
                } else {
                    assert(self.loaded()@[i2] == m0.loaded()@[i2]);
                    assert(self.loaded()@[j2] == m0.loaded()@[j2]);
                }
            }
            assert forall|q: ChunkPos|
                spec_loaded(*self, q) <==> spec_loaded(m0, q) || q == p by {
                if spec_loaded(*self, q) {
                    let w = choose|w: int|
                        0 <= w < self.loaded()@.len() && (#[trigger] self.loaded()@[w]).0 == q;
                    if w < self.loaded()@.len() - 1 {
                        assert(m0.loaded()@[w].0 == q);
                    }
                } else {
                }
                if spec_loaded(m0, q) {
                    let w = choose|w: int|
                        0 <= w < m0.loaded()@.len() && (#[trigger] m0.loaded()@[w]).0 == q;
                    assert(self.loaded()@[w].0 == q);
                }
                if q == p {
                    assert(self.loaded()@[self.loaded()@.len() - 1].0 == p);
                }
            }
        }
        store.insert(p, c);
        self.tag_remesh(p);
        proof {
            assert(self.loaded()@ == m0.loaded()@.push((p, e)));
            assert(m0.loaded()@ == old(self).loaded()@);
            assert forall|q: ChunkPos|
                #[trigger] spec_loaded(*self, q) <==> (spec_loaded(*old(self), q) || q == p) by {
                if spec_loaded(*self, q) {
                    let w = choose|w: int|
                        0 <= w < self.loaded()@.len() && (#[trigger] self.loaded()@[w]).0 == q;
                    if w < self.loaded()@.len() - 1 {
                        assert(old(self).loaded()@[w].0 == q);
                        assert(spec_loaded(*old(self), q));
                    } else {
                        assert(q == p);
                    }
                }
                if spec_loaded(*old(self), q) {
                    let w = choose|w: int|
                        0 <= w < old(self).loaded()@.len() && (#[trigger] old(
                            self,
                        ).loaded()@[w]).0 == q;
                    assert(self.loaded()@[w].0 == q);
                    assert(spec_loaded(*self, q));
                }
                if q == p {
                    assert(self.loaded()@[self.loaded()@.len() - 1].0 == p);
                    assert(spec_loaded(*self, q));
                }
            }
        }
        Some(e)
    }

    /// Tag a coordinate as needing its mesh rebuilt; tagging twice is the
    /// same as tagging once.
    pub fn tag_remesh(&mut self, p: ChunkPos)
        ensures
            final(self).loaded() == old(self).loaded(),
            final(self).render() == old(self).render() && final(self).despawn() == old(
                self,
            ).despawn() && final(self).load_cap() == old(self).load_cap() && final(self).height()
                == old(self).height(),
            manager_wf(*old(self)) ==> manager_wf(*final(self)),
            forall|q: ChunkPos|
                plan_has(final(self).tags()@, q) <==> plan_has(old(self).tags()@, q) || q == p,
    {
        let n = self.needs_mesh.len();
        let mut i: usize = 0;
        while i < n
            invariant
                *self == *old(self),
                n == self.tags()@.len(),
                i <= n,
                forall|j: int| 0 <= j < i ==> #[trigger] self.tags()@[j] != p,
            decreases n - i,
        {
            if self.needs_mesh[i] == p {
                proof {
                    assert(plan_has(self.tags()@, p));
                }
                return;
            }
            i += 1;
        }
        let ghost t0 = self.tags()@;
        self.needs_mesh.push(p);
        proof {
            assert(self.tags()@ == t0.push(p));
            assert(self.tags()@[self.tags()@.len() - 1] == p);
            assert forall|q: ChunkPos|
                plan_has(self.tags()@, q) <==> plan_has(t0, q) || q == p by {
                if plan_has(self.tags()@, q) {
                    let w = choose|w: int|
                        0 <= w < self.tags()@.len() && self.tags()@[w] == q;
                    if w < self.tags()@.len() - 1 {
                        assert(t0[w] == q);
                    }
                }
                if plan_has(t0, q) {
                    let w = choose|w: int| 0 <= w < t0.len() && t0[w] == q;
                    assert(self.tags()@[w] == q);
                }
            }
            assert(self.loaded() == old(self).loaded());
            if manager_wf(*old(self)) {
                assert forall|i2: int, j2: int|
                    0 <= i2 < j2 < self.loaded()@.len() implies (
                    #[trigger] self.loaded()@[i2]).0 != (#[trigger] self.loaded()@[j2]).0 by {
                    assert(self.loaded()@[i2] == old(self).loaded()@[i2]);
                    assert(self.loaded()@[j2] == old(self).loaded()@[j2]);
                }
                assert(manager_wf(*self));
            }
        }
    }
}

/// Candidates are never despawned: the despawn distance strictly exceeds
/// the render distance, so a stationary viewer's loaded candidates stay
/// put — the hysteresis band that prevents load/unload oscillation.
pub proof fn lemma_candidates_not_far(m: StreamingManager, v: ChunkPos, p: ChunkPos)
    requires
        manager_wf(m),
        spec_candidate(m, v, p),
    ensures
        !spec_far(m, v, p),
{
}

/// Streaming convergence: for a stationary viewer, once the load backlog
/// has drained — every candidate is loaded, which `plan_tick` guarantees
/// after enough ticks, loading up to the cap of the closest missing
/// candidates each tick and never unloading a candidate — the loaded
/// coordinate set equals the candidate set exactly: no omissions, and no
/// duplicates, since a coordinate is loaded at most once.
pub proof fn lemma_streaming_convergence(m: StreamingManager, viewer: ChunkPos)
    requires
        manager_wf(m),
        forall|p: ChunkPos| spec_loaded(m, p) ==> spec_candidate(m, viewer, p),
        forall|p: ChunkPos| spec_candidate(m, viewer, p) ==> spec_loaded(m, p),
    ensures
        forall|p: ChunkPos| spec_loaded(m, p) <==> spec_candidate(m, viewer, p),
        forall|i: int, j: int|
            0 <= i < j < m.loaded()@.len() ==> (#[trigger] m.loaded()@[i]).0 != (
            #[trigger] m.loaded()@[j]).0,
{
}


/// An owned snapshot for one background mesh build: the tagged chunk's
/// data and its resident neighbors, copied by value, keyed to the
/// renderable entity the finished mesh will attach to.
pub struct MeshJob {
    pub pos: ChunkPos,
    pub entity: u64,
    pub chunk: Chunk,
    pub neighbors: NeighborChunks,
}

/// An optional snapshot matches an optional stored chunk cell for cell.
pub open spec fn snapshot_matches(a: Option<Chunk>, b: Option<Chunk>) -> bool {
    match a {
        Some(x) => b is Some && x@ == b->Some_0@ && chunk_wf(x),
        None => b is None,
    }
}

impl StreamingManager {
    /// Copy the neighbor of a coordinate out of the store, when the
    /// neighbor coordinate stays in range.
    fn snapshot_at(store: &ChunkStore, x: i64, y: i64, z: i64) -> (r: Option<Chunk>)
        requires
            store_wf(*store),
            -2147483648 <= x <= 2147483647,
            -2147483648 <= y <= 2147483647,
            -2147483648 <= z <= 2147483647,
        ensures
            snapshot_matches(
                r,
                spec_store_get(*store, ChunkPos { x: x as i32, y: y as i32, z: z as i32 }),
            ),
    {
        store.get(ChunkPos { x: x as i32, y: y as i32, z: z as i32 })
    }

    /// Snapshot the inputs of every pending mesh build: for each tagged
    /// coordinate that is still loaded and resident, its chunk and its six
    /// neighbors are copied by value, so the host can run mesh builds off
    /// the tick against owned data. All tags are cleared; tags whose chunk
    /// is gone are dropped silently.
    pub fn take_mesh_jobs(&mut self, store: &ChunkStore) -> (r: Vec<MeshJob>)
        requires
            manager_wf(*old(self)),
            store_wf(*store),
        ensures
            manager_wf(*final(self)),
            final(self).loaded() == old(self).loaded(),
            final(self).tags()@.len() == 0,
            final(self).render() == old(self).render() && final(self).despawn() == old(
                self,
            ).despawn() && final(self).load_cap() == old(self).load_cap() && final(self).height()
                == old(self).height(),
            forall|j: int|
                0 <= j < r@.len() ==> {
                    let job = #[trigger] r@[j];
                    &&& plan_has(old(self).tags()@, job.pos)
                    &&& exists|i: int|
                        0 <= i < old(self).loaded()@.len() && #[trigger] old(self).loaded()@[i]
                            == (job.pos, job.entity)
                    &&& chunk_wf(job.chunk)
                    &&& spec_store_get(*store, job.pos) is Some
                    &&& job.chunk@ == spec_store_get(*store, job.pos)->Some_0@
                    &&& crate::mesh::neighbors_wf(job.neighbors)
                    &&& snapshot_matches(
                        job.neighbors.east,
                        spec_store_get(
                            *store,
                            ChunkPos { x: (job.pos.x + 1) as i32, y: job.pos.y, z: job.pos.z },
                        ),
                    )
                    &&& snapshot_matches(
                        job.neighbors.west,
                        spec_store_get(
                            *store,
                            ChunkPos { x: (job.pos.x - 1) as i32, y: job.pos.y, z: job.pos.z },
                        ),
                    )
                    &&& snapshot_matches(
                        job.neighbors.top,
                        spec_store_get(
                            *store,
                            ChunkPos { x: job.pos.x, y: (job.pos.y + 1) as i32, z: job.pos.z },
                        ),
                    )
                    &&& snapshot_matches(
                        job.neighbors.bottom,
                        spec_store_get(
                            *store,
                            ChunkPos { x: job.pos.x, y: (job.pos.y - 1) as i32, z: job.pos.z },
                        ),
                    )
                    &&& snapshot_matches(
                        job.neighbors.south,
                        spec_store_get(
                            *store,
                            ChunkPos { x: job.pos.x, y: job.pos.y, z: (job.pos.z + 1) as i32 },
                        ),
                    )
                    &&& snapshot_matches(
                        job.neighbors.north,
                        spec_store_get(
                            *store,
                            ChunkPos { x: job.pos.x, y: job.pos.y, z: (job.pos.z - 1) as i32 },
                        ),
                    )
                    &&& -1073741824 <= job.pos.x <= 1073741823 && -1073741824 <= job.pos.y
                        <= 1073741823 && -1073741824 <= job.pos.z <= 1073741823
                },
            // Completeness: every tagged coordinate that is loaded,
            // resident and inside the address band yields a job.
            forall|t: int|
                0 <= t < old(self).tags()@.len() && spec_loaded(
                    *old(self),
                    (#[trigger] old(self).tags()@[t]),
                ) && spec_store_get(*store, old(self).tags()@[t]) is Some && -1073741824 <= old(
                    self,
                ).tags()@[t].x <= 1073741823 && -1073741824 <= old(self).tags()@[t].y
                    <= 1073741823 && -1073741824 <= old(self).tags()@[t].z <= 1073741823
                    ==> exists|j: int|
                    #![trigger r@[j]]
                    0 <= j < r@.len() && r@[j].pos == old(self).tags()@[t],
    {
        let ghost m0 = *self;
        let mut tags: Vec<ChunkPos> = Vec::new();
        std::mem::swap(&mut tags, &mut self.needs_mesh);
        let mut jobs: Vec<MeshJob> = Vec::new();
        let n = tags.len();
        let mut k: usize = 0;
        while k < n
            invariant
                manager_wf(m0),
                store_wf(*store),
                *self == (StreamingManager { needs_mesh: self.needs_mesh, ..m0 }),
                self.tags()@.len() == 0,
                tags@ == m0.tags()@,
                n == tags@.len(),
                k <= n,
                forall|j: int|
                    0 <= j < jobs@.len() ==> {
                        let job = #[trigger] jobs@[j];
                        &&& plan_has(m0.tags()@, job.pos)
                        &&& exists|i: int|
                            0 <= i < m0.loaded()@.len() && #[trigger] m0.loaded()@[i] == (
                            job.pos,
                            job.entity,
                            )
                        &&& chunk_wf(job.chunk)
                        &&& spec_store_get(*store, job.pos) is Some
                        &&& job.chunk@ == spec_store_get(*store, job.pos)->Some_0@
                        &&& crate::mesh::neighbors_wf(job.neighbors)
                        &&& snapshot_matches(
                            job.neighbors.east,
                            spec_store_get(
                                *store,
                                ChunkPos { x: (job.pos.x + 1) as i32, y: job.pos.y, z: job.pos.z },
                            ),
                        )
                        &&& snapshot_matches(
                            job.neighbors.west,
                            spec_store_get(
                                *store,
                                ChunkPos { x: (job.pos.x - 1) as i32, y: job.pos.y, z: job.pos.z },
                            ),
                        )
                        &&& snapshot_matches(
                            job.neighbors.top,
                            spec_store_get(
                                *store,
                                ChunkPos { x: job.pos.x, y: (job.pos.y + 1) as i32, z: job.pos.z },
                            ),
                        )
                        &&& snapshot_matches(
                            job.neighbors.bottom,
                            spec_store_get(
                                *store,
                                ChunkPos { x: job.pos.x, y: (job.pos.y - 1) as i32, z: job.pos.z },
                            ),
                        )
                        &&& snapshot_matches(
                            job.neighbors.south,
                            spec_store_get(
                                *store,
                                ChunkPos { x: job.pos.x, y: job.pos.y, z: (job.pos.z + 1) as i32 },
                            ),
                        )
                        &&& snapshot_matches(
                            job.neighbors.north,
                            spec_store_get(
                                *store,
                                ChunkPos { x: job.pos.x, y: job.pos.y, z: (job.pos.z - 1) as i32 },
                            ),
                        )
                        &&& -1073741824 <= job.pos.x <= 1073741823 && -1073741824 <= job.pos.y
                            <= 1073741823 && -1073741824 <= job.pos.z <= 1073741823
                    },
                forall|t: int|
                    0 <= t < k && spec_loaded(m0, (#[trigger] tags@[t])) && spec_store_get(
                        *store,
                        tags@[t],
                    ) is Some && -1073741824 <= tags@[t].x <= 1073741823 && -1073741824
                        <= tags@[t].y <= 1073741823 && -1073741824 <= tags@[t].z <= 1073741823
                        ==> exists|j: int|
                        #![trigger jobs@[j]]
                        0 <= j < jobs@.len() && jobs@[j].pos == tags@[t],
            decreases n - k,
        {
            let p = tags[k];
            proof {
                assert(tags@[k as int] == p);
                assert(plan_has(m0.tags()@, p));
            }
            let in_band = -1073741824 <= p.x && p.x <= 1073741823 && -1073741824 <= p.y && p.y
                <= 1073741823 && -1073741824 <= p.z && p.z <= 1073741823;
            if in_band {
                match self.entity_at(p) {
                    Some(entity) => {
                        match store.get(p) {
                            Some(chunk) => {
                                let neighbors = crate::mesh::NeighborChunks {
                                    east: Self::snapshot_at(
                                        store,
                                        p.x as i64 + 1,
                                        p.y as i64,
                                        p.z as i64,
                                    ),
                                    west: Self::snapshot_at(
                                        store,
                                        p.x as i64 - 1,
                                        p.y as i64,
                                        p.z as i64,
                                    ),
                                    top: Self::snapshot_at(
                                        store,
                                        p.x as i64,
                                        p.y as i64 + 1,
                                        p.z as i64,
                                    ),
                                    bottom: Self::snapshot_at(
                                        store,
                                        p.x as i64,
                                        p.y as i64 - 1,
                                        p.z as i64,
                                    ),
                                    south: Self::snapshot_at(
                                        store,
                                        p.x as i64,
                                        p.y as i64,
                                        p.z as i64 + 1,
                                    ),
                                    north: Self::snapshot_at(
                                        store,
                                        p.x as i64,
                                        p.y as i64,
                                        p.z as i64 - 1,
                                    ),
                                };
                                let job = MeshJob { pos: p, entity, chunk, neighbors };
                                proof {
                                    let w = choose|w: int|
                                        0 <= w < self.loaded()@.len()
                                            && #[trigger] self.loaded()@[w] == (p, entity);
                                    assert(m0.loaded()@[w] == (p, entity));
                                }
                                let ghost jobs_before = jobs@;
                                jobs.push(job);
                                proof {
                                    assert(jobs@ == jobs_before.push(job));
                                    assert(jobs@[jobs@.len() - 1] == job);
                                    assert forall|j: int|
                                        0 <= j < jobs@.len() - 1 implies #[trigger] jobs@[j]
                                        == jobs_before[j] by {}
                                    assert forall|t: int|
                                        0 <= t < k + 1 && spec_loaded(
                                            m0,
                                            (#[trigger] tags@[t]),
                                        ) && spec_store_get(*store, tags@[t]) is Some
                                        && -1073741824 <= tags@[t].x <= 1073741823
                                        && -1073741824 <= tags@[t].y <= 1073741823
                                        && -1073741824 <= tags@[t].z <= 1073741823
                                        implies exists|j: int|
                                        #![trigger jobs@[j]]
                                        0 <= j < jobs@.len() && jobs@[j].pos == tags@[t] by {
                                        if t < k {
                                            let j = choose|j: int|
                                                0 <= j < jobs_before.len() && (
                                                #[trigger] jobs_before[j]).pos == tags@[t];
                                            assert(jobs@[j].pos == tags@[t]);
                                        } else {
                                            assert(jobs@[jobs@.len() - 1].pos == tags@[t]);
                                        }
                                    }
                                }
                            },
                            None => {},
                        }
                    },
                    None => {
                        proof {
                            // Not loaded: the completeness guard is vacuous.
                            if spec_loaded(m0, p) {
                                let w = choose|w: int|
                                    0 <= w < m0.loaded()@.len() && (
                                    #[trigger] m0.loaded()@[w]).0 == p;
                                assert(self.loaded()@[w].0 == p);
                                assert(spec_loaded(*self, p));
                            }
                        }
                    },
                }
            }
            k += 1;
        }
        jobs
    }
}

} // verus!
