//! Growth trackers for saplings and crops: maps from world position to a
//! remaining-time counter in milliseconds, ticked each frame, with an
//! idempotent insert-if-absent registration so re-scanning a chunk after an
//! unload/reload cycle never duplicates timers. Mature saplings grow into
//! trees, wheat advances through its stages; both edits mark the touched
//! chunks dirty and request remeshing.

use vstd::prelude::*;

use crate::block::BlockType;
use crate::chunk::CHUNK_SIZE;
use crate::coords::{ChunkPos, WorldPos};
use crate::store::{spec_store_get, store_wf, ChunkStore};
use crate::stream::{manager_wf, StreamingManager};
use crate::world::{read_block, request_remesh, write_block};

verus! {

/// Shortest sapling growth delay, in milliseconds.
pub const SAPLING_GROW_MIN_MS: u32 = 60000;

/// Longest sapling growth delay, in milliseconds.
pub const SAPLING_GROW_MAX_MS: u32 = 180000;

/// Shortest crop stage delay, in milliseconds.
pub const CROP_GROW_MIN_MS: u32 = 20000;

/// Longest crop stage delay, in milliseconds.
pub const CROP_GROW_MAX_MS: u32 = 40000;

/// Air cells a sapling needs above it to grow.
pub const TREE_SPACE_REQUIRED: i32 = 6;

/// Canopy radius of a grown tree.
pub const TREE_CANOPY_RADIUS: i32 = 2;

/// Relies on rand::random: a fresh pseudo-random 32-bit word. Nothing is
/// promised of its value; every caller handles every outcome.
#[verifier::external_body]
fn random_u32() -> u32 {
    rand::random::<u32>()
}

/// A random delay in `[lo, hi)` milliseconds.
fn random_delay(lo: u32, hi: u32) -> (r: u32)
    requires
        lo < hi,
    ensures
        lo <= r < hi,
{
    lo + random_u32() % (hi - lo)
}

/// Remaining time until a timer's position, if tracked.
pub open spec fn timer_of(s: Seq<(WorldPos, u32)>, p: WorldPos) -> Option<u32>
    decreases s.len(),
{
    if s.len() == 0 {
        None
    } else if s[0].0 == p {
        Some(s[0].1)
    } else {
        timer_of(s.skip(1), p)
    }
}

/// A map from world position to remaining growth time in milliseconds,
/// plus the set of chunk coordinates already scanned for timers.
pub struct GrowthTimers {
    timers: Vec<(WorldPos, u32)>,
    scanned: Vec<ChunkPos>,
}

/// At most one timer per position.
pub open spec fn timers_wf(t: GrowthTimers) -> bool {
    forall|i: int, j: int|
        0 <= i < j < t.timers()@.len() ==> (#[trigger] t.timers()@[i]).0 != (
        #[trigger] t.timers()@[j]).0
}

impl GrowthTimers {
    /// The tracked timers, for specification.
    pub closed spec fn timers(self) -> Vec<(WorldPos, u32)> {
        self.timers
    }

    /// The scanned chunk coordinates, for specification.
    pub closed spec fn scanned(self) -> Vec<ChunkPos> {
        self.scanned
    }

    /// An empty tracker.
    pub fn new() -> (r: Self)
        ensures
            timers_wf(r),
            r.timers()@.len() == 0,
            r.scanned()@.len() == 0,
    {
        GrowthTimers { timers: Vec::new(), scanned: Vec::new() }
    }

    /// How many timers are tracked.
    pub fn len(&self) -> (r: usize)
        ensures
            r == self.timers()@.len(),
    {
        self.timers.len()
    }

    /// Find a position's slot.
    fn index_of(&self, p: WorldPos) -> (r: Option<usize>)
        ensures
            r is Some ==> r->Some_0 < self.timers()@.len() && self.timers()@[
                r->Some_0 as int
            ].0 == p,
            r is None ==> forall|j: int|
                0 <= j < self.timers()@.len() ==> (#[trigger] self.timers()@[j]).0 != p,
    {
        let n = self.timers.len();
        let mut i: usize = 0;
        while i < n
            invariant
                n == self.timers()@.len(),
                i <= n,
                forall|j: int| 0 <= j < i ==> (#[trigger] self.timers()@[j]).0 != p,
            decreases n - i,
        {
            if self.timers[i].0 == p {
                return Some(i);
            }
            i += 1;
        }
        None
    }

    /// Whether a position is tracked.
    pub fn contains(&self, p: WorldPos) -> (r: bool)
        requires
            timers_wf(*self),
        ensures
            r == (timer_of(self.timers()@, p) is Some),
    {
        let r = self.index_of(p);
        proof {
            match r {
                Some(i) => {
                    lemma_timer_found(self.timers()@, p, i as int);
                },
                None => {
                    lemma_timer_none(self.timers()@, p);
                },
            }
        }
        r.is_some()
    }

    /// Track a position with the given delay, unless it is already
    /// tracked: registering twice is the same as registering once, so a
    /// rescan after an unload/reload cycle never duplicates or resets a
    /// timer.
    pub fn register(&mut self, p: WorldPos, delay_ms: u32)
        requires
            timers_wf(*old(self)),
        ensures
            timers_wf(*final(self)),
            final(self).scanned() == old(self).scanned(),
            timer_of(final(self).timers()@, p) == (if timer_of(old(self).timers()@, p) is Some {
                timer_of(old(self).timers()@, p)
            } else {
                Some(delay_ms)
            }),
            forall|q: WorldPos|
                q != p ==> #[trigger] timer_of(final(self).timers()@, q) == timer_of(
                    old(self).timers()@,
                    q,
                ),
    {
        match self.index_of(p) {
            Some(i) => {
                proof {
                    lemma_timer_found(self.timers()@, p, i as int);
                }
            },
            None => {
                let ghost t0 = self.timers()@;
                self.timers.push((p, delay_ms));
                proof {
                    lemma_timer_none(t0, p);
                    lemma_timer_push(t0, p, delay_ms);
                    assert forall|i2: int, j2: int|
                        0 <= i2 < j2 < self.timers()@.len() implies (
                        #[trigger] self.timers()@[i2]).0 != (#[trigger] self.timers()@[j2]).0 by {
                        if j2 == self.timers()@.len() - 1 {
                            assert(self.timers()@[i2] == t0[i2]);
                        } else {
                            assert(self.timers()@[i2] == t0[i2]);
                            assert(self.timers()@[j2] == t0[j2]);
                        }
                    }
                }
            },
        }
    }

    /// Stop tracking a position.
    pub fn remove(&mut self, p: WorldPos)
        requires
            timers_wf(*old(self)),
        ensures
            timers_wf(*final(self)),
            final(self).scanned() == old(self).scanned(),
            timer_of(final(self).timers()@, p) is None,
            forall|q: WorldPos|
                q != p ==> #[trigger] timer_of(final(self).timers()@, q) == timer_of(
                    old(self).timers()@,
                    q,
                ),
    {
        match self.index_of(p) {
            Some(i) => {
                let ghost t0 = self.timers()@;
                self.timers.remove(i);
                proof {
                    lemma_timer_remove(t0, p, i as int);
                }
            },
            None => {
                proof {
                    lemma_timer_none(self.timers()@, p);
                }
            },
        }
    }

    /// The tracked positions, copied out.
    pub fn positions(&self) -> (r: Vec<WorldPos>)
        ensures
            r@.len() == self.timers()@.len(),
            forall|j: int|
                0 <= j < r@.len() ==> #[trigger] r@[j] == self.timers()@[j].0,
    {
        let mut out: Vec<WorldPos> = Vec::new();
        let n = self.timers.len();
        let mut i: usize = 0;
        while i < n
            invariant
                n == self.timers()@.len(),
                i <= n,
                out@.len() == i,
                forall|j: int| 0 <= j < i ==> #[trigger] out@[j] == self.timers()@[j].0,
            decreases n - i,
        {
            out.push(self.timers[i].0);
            i += 1;
        }
        out
    }

    /// Tick every timer down by the elapsed milliseconds, saturating at
    /// zero, and return the positions whose timers ran out; those stop
    /// being tracked.
    pub fn tick(&mut self, dt_ms: u32) -> (r: Vec<WorldPos>)
        requires
            timers_wf(*old(self)),
        ensures
            timers_wf(*final(self)),
            final(self).scanned() == old(self).scanned(),
            forall|j: int|
                0 <= j < r@.len() ==> timer_of(old(self).timers()@, #[trigger] r@[j]) is Some
                    && timer_of(old(self).timers()@, r@[j])->Some_0 <= dt_ms,
            forall|q: WorldPos|
                #[trigger] timer_of(final(self).timers()@, q) == (match timer_of(
                    old(self).timers()@,
                    q,
                ) {
                    Some(v) => if v > dt_ms {
                        Some((v - dt_ms) as u32)
                    } else {
                        Option::<u32>::None
                    },
                    None => Option::<u32>::None,
                }),
            forall|q: WorldPos|
                (timer_of(old(self).timers()@, q) is Some && timer_of(old(self).timers()@, q)
                    ->Some_0 <= dt_ms) ==> plan_ready(r@, q),
    {
        let mut kept: Vec<(WorldPos, u32)> = Vec::new();
        let mut ready: Vec<WorldPos> = Vec::new();
        let n = self.timers.len();
        let mut i: usize = 0;
        while i < n
            invariant
                timers_wf(*self),
                *self == *old(self),
                n == self.timers()@.len(),
                i <= n,
                forall|k: int|
                    0 <= k < kept@.len() ==> exists|j: int|
                        0 <= j < i && (#[trigger] kept@[k]).0 == self.timers()@[j].0
                            && self.timers()@[j].1 > dt_ms && kept@[k].1 == self.timers()@[j].1
                            - dt_ms,
                forall|k1: int, k2: int|
                    0 <= k1 < k2 < kept@.len() ==> (#[trigger] kept@[k1]).0 != (
                    #[trigger] kept@[k2]).0,
                forall|j: int|
                    0 <= j < i && self.timers()@[j].1 > dt_ms ==> timer_of(
                        kept@,
                        (#[trigger] self.timers()@[j]).0,
                    ) == Some((self.timers()@[j].1 - dt_ms) as u32),
                forall|q: WorldPos|
                    timer_of(kept@, q) is Some ==> exists|j: int|
                        0 <= j < i && (#[trigger] self.timers()@[j]).0 == q,
                forall|j: int|
                    0 <= j < ready@.len() ==> timer_of(
                        self.timers()@,
                        #[trigger] ready@[j],
                    ) is Some && timer_of(self.timers()@, ready@[j])->Some_0 <= dt_ms,
                forall|j: int|
                    0 <= j < i && self.timers()@[j].1 <= dt_ms ==> plan_ready(
                        ready@,
                        (#[trigger] self.timers()@[j]).0,
                    ),
            decreases n - i,
        {
            let (p, v) = self.timers[i];
            proof {
                assert(self.timers()@[i as int] == (p, v));
                lemma_timer_found_value(self.timers()@, p, i as int);
            }
            if v > dt_ms {
                let ghost kept_before = kept@;
                kept.push((p, v - dt_ms));
                proof {
                    lemma_timer_push_any(kept_before, p, (v - dt_ms) as u32);
                    assert(kept@[kept@.len() - 1] == (p, (v - dt_ms) as u32));
                    assert forall|k1: int, k2: int|
                        0 <= k1 < k2 < kept@.len() implies (#[trigger] kept@[k1]).0 != (
                        #[trigger] kept@[k2]).0 by {
                        if k2 == kept@.len() - 1 {
                            assert(kept@[k1] == kept_before[k1]);
                            let j = choose|j: int|
                                0 <= j < i && (#[trigger] kept_before[k1]).0 == self.timers()@[
                                    j
                                ].0 && self.timers()@[j].1 > dt_ms && kept_before[k1].1
                                    == self.timers()@[j].1 - dt_ms;
                            assert(self.timers()@[j].0 != self.timers()@[i as int].0);
                        } else {
                            assert(kept@[k1] == kept_before[k1]);
                            assert(kept@[k2] == kept_before[k2]);
                        }
                    }
                }
            } else {
                let ghost ready_before = ready@;
                ready.push(p);
                proof {
                    assert(ready@[ready@.len() - 1] == p);
                    assert forall|j: int|
                        0 <= j < ready@.len() implies timer_of(
                        self.timers()@,
                        #[trigger] ready@[j],
                    ) is Some && timer_of(self.timers()@, ready@[j])->Some_0 <= dt_ms by {
                        if j < ready@.len() - 1 {
                            assert(ready@[j] == ready_before[j]);
                        }
                    }
                    assert forall|j: int|
                        0 <= j < i + 1 && self.timers()@[j].1 <= dt_ms implies plan_ready(
                        ready@,
                        (#[trigger] self.timers()@[j]).0,
                    ) by {
                        if j == i {
                            assert(ready@[ready@.len() - 1] == self.timers()@[j].0);
                        } else {
                            let w = choose|w: int|
                                0 <= w < ready_before.len() && ready_before[w]
                                    == self.timers()@[j].0;
                            assert(ready@[w] == self.timers()@[j].0);
                        }
                    }
                }
            }
            i += 1;
        }
        self.timers = kept;
        proof {
            assert forall|q: WorldPos|
                #[trigger] timer_of(self.timers()@, q) == (match timer_of(
                old(self).timers()@,
                q,
            ) {
                Some(v) => if v > dt_ms {
                    Some((v - dt_ms) as u32)
                } else {
                    Option::<u32>::None
                },
                None => Option::<u32>::None,
            }) by {
                match timer_of(old(self).timers()@, q) {
                    Some(v) => {
                        lemma_timer_is_entry(old(self).timers()@, q);
                        let j = choose|j: int|
                            0 <= j < old(self).timers()@.len() && (#[trigger] old(self).timers()@[j]).0 == q && old(self).timers()@[j].1 == v;
                        if v > dt_ms {
                        } else {
                            if timer_of(self.timers()@, q) is Some {
                                let w = choose|w: int|
                                    0 <= w < old(self).timers()@.len() && (#[trigger] old(self).timers()@[w]).0 == q;
                                lemma_timer_is_entry(self.timers()@, q);
                                let k = choose|k: int|
                                    0 <= k < self.timers()@.len() && (
                                    #[trigger] self.timers()@[k]).0 == q && self.timers()@[k].1
                                        == timer_of(self.timers()@, q)->Some_0;
                                let j2 = choose|j2: int|
                                    0 <= j2 < i && (#[trigger] self.timers()@[k]).0 == old(self).timers()@[j2].0 && old(self).timers()@[j2].1 > dt_ms
                                        && self.timers()@[k].1 == old(self).timers()@[j2].1
                                        - dt_ms;
                                assert(old(self).timers()@[j2].0 == q && old(self).timers()@[
                                    j
                                ].0 == q);
                                assert(j2 == j);
                            }
                        }
                    },
                    None => {
                        if timer_of(self.timers()@, q) is Some {
                            let j = choose|j: int|
                                0 <= j < i && (#[trigger] old(self).timers()@[j]).0 == q;
                            lemma_timer_found_value(old(self).timers()@, q, j);
                        }
                    },
                }
            }
            assert forall|q: WorldPos|
                (timer_of(old(self).timers()@, q) is Some && timer_of(old(self).timers()@, q)
                    ->Some_0 <= dt_ms) implies plan_ready(ready@, q) by {
                lemma_timer_is_entry(old(self).timers()@, q);
                let j = choose|j: int|
                    0 <= j < old(self).timers()@.len() && (#[trigger] old(self).timers()@[j]).0
                        == q && old(self).timers()@[j].1 == timer_of(old(self).timers()@, q)
                        ->Some_0;
                assert(plan_ready(ready@, old(self).timers()@[j].0));
            }
        }
        ready
    }

    /// Whether a chunk has already been scanned for timers.
    pub fn is_scanned(&self, c: ChunkPos) -> (r: bool)
        ensures
            r == exists|i: int| 0 <= i < self.scanned()@.len() && #[trigger] self.scanned()@[i]
                == c,
    {
        let n = self.scanned.len();
        let mut i: usize = 0;
        while i < n
            invariant
                n == self.scanned()@.len(),
                i <= n,
                forall|j: int| 0 <= j < i ==> #[trigger] self.scanned()@[j] != c,
            decreases n - i,
        {
            if self.scanned[i] == c {
                proof {
                    assert(self.scanned()@[i as int] == c);
                }
                return true;
            }
            i += 1;
        }
        false
    }

    /// Remember that a chunk was scanned; other chunks' marks are
    /// untouched.
    pub fn mark_scanned(&mut self, c: ChunkPos)
        ensures
            final(self).timers() == old(self).timers(),
            forall|q: ChunkPos|
                scanned_has(final(self).scanned()@, q) <==> scanned_has(old(self).scanned()@, q)
                    || q == c,
    {
        if !self.is_scanned(c) {
            let ghost s0 = self.scanned()@;
            self.scanned.push(c);
            proof {
                assert(self.scanned()@ == s0.push(c));
                assert(self.scanned()@[self.scanned()@.len() - 1] == c);
                assert forall|q: ChunkPos|
                    scanned_has(self.scanned()@, q) <==> scanned_has(s0, q) || q == c by {
                    if scanned_has(self.scanned()@, q) {
                        let w = choose|w: int|
                            0 <= w < self.scanned()@.len() && self.scanned()@[w] == q;
                        if w < self.scanned()@.len() - 1 {
                            assert(s0[w] == q);
                        }
                    }
                    if scanned_has(s0, q) {
                        let w = choose|w: int| 0 <= w < s0.len() && s0[w] == q;
                        assert(self.scanned()@[w] == q);
                    }
                }
            }
        }
    }

    /// Forget that a chunk was scanned, so a reload rescans it; other
    /// chunks' marks are untouched.
    pub fn unmark_scanned(&mut self, c: ChunkPos)
        ensures
            final(self).timers() == old(self).timers(),
            !scanned_has(final(self).scanned()@, c),
            forall|q: ChunkPos|
                q != c ==> scanned_has(final(self).scanned()@, q) == scanned_has(
                    old(self).scanned()@,
                    q,
                ),
    {
        let ghost s0 = self.scanned()@;
        let mut kept: Vec<ChunkPos> = Vec::new();
        let n = self.scanned.len();
        let mut i: usize = 0;
        while i < n
            invariant
                *self == *old(self),
                s0 == self.scanned()@,
                n == self.scanned()@.len(),
                i <= n,
                forall|k: int| 0 <= k < kept@.len() ==> #[trigger] kept@[k] != c,
                forall|k: int|
                    0 <= k < kept@.len() ==> exists|j: int|
                        0 <= j < i && s0[j] == #[trigger] kept@[k],
                forall|j: int| 0 <= j < i && s0[j] != c ==> scanned_has(kept@, #[trigger] s0[j]),
            decreases n - i,
        {
            let e = self.scanned[i];
            if e != c {
                let ghost kept_before = kept@;
                kept.push(e);
                proof {
                    assert(kept@[kept@.len() - 1] == s0[i as int]);
                    assert forall|j: int|
                        0 <= j < i + 1 && s0[j] != c implies scanned_has(
                        kept@,
                        #[trigger] s0[j],
                    ) by {
                        if j < i {
                            let w = choose|w: int|
                                0 <= w < kept_before.len() && kept_before[w] == s0[j];
                            assert(kept@[w] == s0[j]);
                        }
                    }
                }
            }
            i += 1;
        }
        self.scanned = kept;
        proof {
            assert forall|q: ChunkPos|
                q != c implies scanned_has(self.scanned()@, q) == scanned_has(s0, q) by {
                if scanned_has(self.scanned()@, q) {
                    let k = choose|k: int|
                        0 <= k < self.scanned()@.len() && self.scanned()@[k] == q;
                    let j = choose|j: int|
                        0 <= j < i && s0[j] == #[trigger] self.scanned()@[k];
                    assert(s0[j] == q);
                }
                if scanned_has(s0, q) {
                    let j = choose|j: int| 0 <= j < s0.len() && s0[j] == q;
                    assert(scanned_has(self.scanned()@, s0[j]));
                }
            }
        }
    }
}

/// Whether a scanned-chunk list holds a coordinate.
pub open spec fn scanned_has(s: Seq<ChunkPos>, c: ChunkPos) -> bool {
    exists|i: int| 0 <= i < s.len() && s[i] == c
}

/// Whether a ready list holds a position.
pub open spec fn plan_ready(s: Seq<WorldPos>, p: WorldPos) -> bool {
    exists|i: int| 0 <= i < s.len() && s[i] == p
}

/// A timer found at the first matching index is what the map holds.
proof fn lemma_timer_found(s: Seq<(WorldPos, u32)>, p: WorldPos, i: int)
    requires
        0 <= i < s.len(),
        s[i].0 == p,
        forall|j: int| 0 <= j < i ==> (#[trigger] s[j]).0 != p,
    ensures
        timer_of(s, p) == Some(s[i].1),
    decreases i,
{
    if i > 0 {
        lemma_timer_found(s.skip(1), p, i - 1);
    }
}

/// With unique keys, a match anywhere is what the map holds.
proof fn lemma_timer_found_value(s: Seq<(WorldPos, u32)>, p: WorldPos, i: int)
    requires
        0 <= i < s.len(),
        s[i].0 == p,
        forall|i2: int, j2: int| 0 <= i2 < j2 < s.len() ==> (#[trigger] s[i2]).0 != (
        #[trigger] s[j2]).0,
    ensures
        timer_of(s, p) == Some(s[i].1),
{
    assert forall|j: int| 0 <= j < i implies (#[trigger] s[j]).0 != p by {
        assert(s[j].0 != s[i].0);
    }
    lemma_timer_found(s, p, i);
}

/// With no matching key, nothing is tracked.
proof fn lemma_timer_none(s: Seq<(WorldPos, u32)>, p: WorldPos)
    requires
        forall|j: int| 0 <= j < s.len() ==> (#[trigger] s[j]).0 != p,
    ensures
        timer_of(s, p) is None,
    decreases s.len(),
{
    if s.len() > 0 {
        lemma_timer_none(s.skip(1), p);
    }
}

/// A tracked timer corresponds to an entry.
proof fn lemma_timer_is_entry(s: Seq<(WorldPos, u32)>, p: WorldPos)
    requires
        timer_of(s, p) is Some,
    ensures
        exists|i: int|
            0 <= i < s.len() && (#[trigger] s[i]).0 == p && s[i].1 == timer_of(s, p)->Some_0,
    decreases s.len(),
{
    if s[0].0 == p {
        assert(s[0].0 == p && s[0].1 == timer_of(s, p)->Some_0);
    } else {
        lemma_timer_is_entry(s.skip(1), p);
        let i = choose|i: int|
            0 <= i < s.skip(1).len() && (#[trigger] s.skip(1)[i]).0 == p && s.skip(1)[i].1
                == timer_of(s.skip(1), p)->Some_0;
        assert(s[i + 1].0 == p && s[i + 1].1 == timer_of(s, p)->Some_0);
    }
}

/// Appending a fresh key tracks it; other keys are untouched.
proof fn lemma_timer_push(s: Seq<(WorldPos, u32)>, p: WorldPos, v: u32)
    requires
        timer_of(s, p) is None,
    ensures
        timer_of(s.push((p, v)), p) == Some(v),
        forall|q: WorldPos|
            q != p ==> #[trigger] timer_of(s.push((p, v)), q) == timer_of(s, q),
    decreases s.len(),
{
    let post = s.push((p, v));
    if s.len() == 0 {
        assert(post[0] == (p, v));
        assert(post.skip(1) =~= Seq::<(WorldPos, u32)>::empty());
        assert forall|q: WorldPos|
            q != p implies #[trigger] timer_of(post, q) == timer_of(s, q) by {
            assert(timer_of(post.skip(1), q) is None);
        }
    } else {
        assert(post[0] == s[0]);
        assert(post.skip(1) =~= s.skip(1).push((p, v)));
        lemma_timer_push(s.skip(1), p, v);
        assert forall|q: WorldPos|
            q != p implies #[trigger] timer_of(post, q) == timer_of(s, q) by {
            if s[0].0 != q {
                assert(timer_of(s.skip(1).push((p, v)), q) == timer_of(s.skip(1), q));
            }
        }
    }
}

/// Appending any entry leaves earlier keys' lookups unchanged and tracks
/// the appended key if it was fresh.
proof fn lemma_timer_push_any(s: Seq<(WorldPos, u32)>, p: WorldPos, v: u32)
    ensures
        forall|q: WorldPos|
            q != p ==> #[trigger] timer_of(s.push((p, v)), q) == timer_of(s, q),
        timer_of(s, p) is None ==> timer_of(s.push((p, v)), p) == Some(v),
        timer_of(s, p) is Some ==> timer_of(s.push((p, v)), p) == timer_of(s, p),
    decreases s.len(),
{
    let post = s.push((p, v));
    if s.len() == 0 {
        assert(post[0] == (p, v));
        assert(post.skip(1) =~= Seq::<(WorldPos, u32)>::empty());
        assert forall|q: WorldPos|
            q != p implies #[trigger] timer_of(post, q) == timer_of(s, q) by {
            assert(timer_of(post.skip(1), q) is None);
        }
    } else {
        assert(post[0] == s[0]);
        assert(post.skip(1) =~= s.skip(1).push((p, v)));
        lemma_timer_push_any(s.skip(1), p, v);
        assert forall|q: WorldPos|
            q != p implies #[trigger] timer_of(post, q) == timer_of(s, q) by {
            if s[0].0 != q {
                assert(timer_of(s.skip(1).push((p, v)), q) == timer_of(s.skip(1), q));
            }
        }
    }
}

/// Removing a slot removes its key's timer and no other.
proof fn lemma_timer_remove(s: Seq<(WorldPos, u32)>, p: WorldPos, i: int)
    requires
        0 <= i < s.len(),
        s[i].0 == p,
        forall|i2: int, j2: int| 0 <= i2 < j2 < s.len() ==> (#[trigger] s[i2]).0 != (
        #[trigger] s[j2]).0,
    ensures
        timer_of(s.remove(i), p) is None,
        forall|q: WorldPos|
            q != p ==> #[trigger] timer_of(s.remove(i), q) == timer_of(s, q),
        forall|i2: int, j2: int|
            0 <= i2 < j2 < s.remove(i).len() ==> (#[trigger] s.remove(i)[i2]).0 != (
            #[trigger] s.remove(i)[j2]).0,
{
    let post = s.remove(i);
    assert forall|j: int| 0 <= j < post.len() implies (#[trigger] post[j]).0 != p by {
        if j < i {
            assert(post[j] == s[j]);
        } else {
            assert(post[j] == s[j + 1]);
        }
    }
    lemma_timer_none(post, p);
    assert forall|q: WorldPos| q != p implies #[trigger] timer_of(post, q) == timer_of(s, q) by {
        lemma_timer_remove_other(s, i, q);
    }
    assert forall|i2: int, j2: int|
        0 <= i2 < j2 < post.len() implies (#[trigger] post[i2]).0 != (#[trigger] post[j2]).0 by {
        let a = if i2 < i {
            i2
        } else {
            i2 + 1
        };
        let b = if j2 < i {
            j2
        } else {
            j2 + 1
        };
        assert(post[i2] == s[a]);
        assert(post[j2] == s[b]);
    }
}

/// Removing one slot leaves every other key's lookup unchanged.
proof fn lemma_timer_remove_other(s: Seq<(WorldPos, u32)>, i: int, q: WorldPos)
    requires
        0 <= i < s.len(),
        s[i].0 != q,
    ensures
        timer_of(s.remove(i), q) == timer_of(s, q),
    decreases s.len(),
{
    if i == 0 {
        assert(s.remove(0) =~= s.skip(1));
    } else {
        if s[0].0 == q {
            assert(s.remove(i)[0] == s[0]);
        } else {
            assert(s.remove(i)[0] == s[0]);
            assert(s.remove(i).skip(1) =~= s.skip(1).remove(i - 1));
            lemma_timer_remove_other(s.skip(1), i - 1, q);
        }
    }
}


/// A world position the growth systems operate on; keeps every offset
/// inside `i32`.
pub open spec fn growth_pos_in_bounds(p: WorldPos) -> bool {
    -16000000 <= p.x <= 16000000 && -16000000 <= p.y <= 16000000 && -16000000 <= p.z <= 16000000
}

/// A chunk coordinate the growth scanner accepts.
pub open spec fn growth_chunk_in_bounds(c: ChunkPos) -> bool {
    -1000000 <= c.x <= 1000000 && -1000000 <= c.y <= 1000000 && -1000000 <= c.z <= 1000000
}

/// The world position of a chunk's local cell.
pub open spec fn spec_cell_pos(c: ChunkPos, x: int, y: int, z: int) -> WorldPos {
    WorldPos { x: (c.x * 16 + x) as i32, y: (c.y * 16 + y) as i32, z: (c.z * 16 + z) as i32 }
}

/// Whether a block is a sapling.
pub open spec fn spec_is_sapling(b: BlockType) -> bool {
    b is OakSapling || b is BirchSapling
}

/// Whether a block is still-growing wheat.
pub open spec fn spec_is_growing_wheat(b: BlockType) -> bool {
    b is WheatStage0 || b is WheatStage1 || b is WheatStage2
}

/// Scan a freshly loaded chunk for sapling blocks and register a growth
/// timer for each: afterwards every sapling cell of the resident chunk is
/// tracked, a fresh timer lying in the configured delay band, while timers
/// that already existed are never touched — so an unload/reload cycle never
/// duplicates or resets them. The chunk is remembered as scanned; a chunk
/// already scanned, or not resident, registers nothing.
pub fn scan_chunk_for_saplings(tracker: &mut GrowthTimers, store: &ChunkStore, c: ChunkPos)
    requires
        timers_wf(*old(tracker)),
        store_wf(*store),
        growth_chunk_in_bounds(c),
    ensures
        timers_wf(*final(tracker)),
        forall|q: WorldPos|
            timer_of(old(tracker).timers()@, q) is Some ==> #[trigger] timer_of(
                final(tracker).timers()@,
                q,
            ) == timer_of(old(tracker).timers()@, q),
        scanned_has(old(tracker).scanned()@, c) ==> *final(tracker) == *old(tracker),
        !scanned_has(old(tracker).scanned()@, c) ==> scanned_has(final(tracker).scanned()@, c),
        (!scanned_has(old(tracker).scanned()@, c) && spec_store_get(*store, c) is Some)
            ==> forall|x: int, y: int, z: int|
            0 <= x < 16 && 0 <= y < 16 && 0 <= z < 16 && spec_is_sapling(
                crate::block::spec_from_id(
                    #[trigger] spec_store_get(*store, c)->Some_0@[crate::chunk::spec_index(
                        x,
                        y,
                        z,
                    )],
                ),
            ) ==> timer_of(final(tracker).timers()@, spec_cell_pos(c, x, y, z)) is Some && (
            timer_of(old(tracker).timers()@, spec_cell_pos(c, x, y, z)) is None ==> timer_of(
                final(tracker).timers()@,
                spec_cell_pos(c, x, y, z),
            )->Some_0 >= SAPLING_GROW_MIN_MS && timer_of(
                final(tracker).timers()@,
                spec_cell_pos(c, x, y, z),
            )->Some_0 < SAPLING_GROW_MAX_MS),
{
    if tracker.is_scanned(c) {
        return;
    }
    tracker.mark_scanned(c);
    let chunk = match store.get(c) {
        Some(ch) => ch,
        None => {
            return;
        },
    };
    let ghost t0 = tracker.timers()@;
    let mut k: usize = 0;
    while k < crate::chunk::CHUNK_VOLUME
        invariant
            timers_wf(*tracker),
            crate::chunk::chunk_wf(chunk),
            chunk@ == spec_store_get(*store, c)->Some_0@,
            store_wf(*store),
            spec_store_get(*store, c) is Some,
            growth_chunk_in_bounds(c),
            scanned_has(tracker.scanned()@, c),
            k <= crate::chunk::CHUNK_VOLUME,
            forall|q: WorldPos|
                timer_of(t0, q) is Some ==> #[trigger] timer_of(tracker.timers()@, q) == timer_of(
                    t0,
                    q,
                ),
            t0 == old(tracker).timers()@,
            forall|q: WorldPos|
                #[trigger] timer_of(tracker.timers()@, q) is Some ==> timer_of(t0, q) is Some
                    || (timer_of(tracker.timers()@, q)->Some_0 >= SAPLING_GROW_MIN_MS && timer_of(
                    tracker.timers()@,
                    q,
                )->Some_0 < SAPLING_GROW_MAX_MS),
            forall|x: int, y: int, z: int|
                0 <= x < 16 && 0 <= y < 16 && 0 <= z < 16 && crate::chunk::spec_index(x, y, z)
                    < k && spec_is_sapling(
                    crate::block::spec_from_id(
                        #[trigger] chunk@[crate::chunk::spec_index(x, y, z)],
                    ),
                ) ==> timer_of(tracker.timers()@, spec_cell_pos(c, x, y, z)) is Some,
        decreases crate::chunk::CHUNK_VOLUME - k,
    {
        let x = k % 16;
        let z = (k % 256) / 16;
        let y = k / 256;
        proof {
            assert(crate::chunk::spec_index(x as int, y as int, z as int) == k) by (nonlinear_arith)
                requires
                    0 <= k < 4096,
                    x == k % 16,
                    z == (k % 256) / 16,
                    y == k / 256,
            ;
        }
        let b = chunk.get(x, y, z);
        if matches!(b, BlockType::OakSapling | BlockType::BirchSapling) {
            let wp = WorldPos {
                x: c.x * 16 + x as i32,
                y: c.y * 16 + y as i32,
                z: c.z * 16 + z as i32,
            };
            proof {
                assert(wp == spec_cell_pos(c, x as int, y as int, z as int));
            }
            let delay = random_delay(SAPLING_GROW_MIN_MS, SAPLING_GROW_MAX_MS);
            let ghost before = tracker.timers()@;
            tracker.register(wp, delay);
            proof {
                assert forall|x2: int, y2: int, z2: int|
                    0 <= x2 < 16 && 0 <= y2 < 16 && 0 <= z2 < 16 && crate::chunk::spec_index(
                        x2,
                        y2,
                        z2,
                    ) < k + 1 && spec_is_sapling(
                        crate::block::spec_from_id(
                            #[trigger] chunk@[crate::chunk::spec_index(x2, y2, z2)],
                        ),
                    ) implies timer_of(tracker.timers()@, spec_cell_pos(c, x2, y2, z2)) is Some
                    by {
                    let pos2 = spec_cell_pos(c, x2, y2, z2);
                    if pos2 != wp {
                        assert(timer_of(tracker.timers()@, pos2) == timer_of(before, pos2));
                    }
                }
            }
        }
        k += 1;
    }
}

/// Scan a freshly loaded chunk for growing wheat and register a stage
/// timer for each, exactly as for saplings: afterwards every still-growing
/// wheat cell of the resident chunk is tracked, fresh timers lying in the
/// crop delay band, existing timers untouched.
pub fn scan_chunk_for_crops(tracker: &mut GrowthTimers, store: &ChunkStore, c: ChunkPos)
    requires
        timers_wf(*old(tracker)),
        store_wf(*store),
        growth_chunk_in_bounds(c),
    ensures
        timers_wf(*final(tracker)),
        forall|q: WorldPos|
            timer_of(old(tracker).timers()@, q) is Some ==> #[trigger] timer_of(
                final(tracker).timers()@,
                q,
            ) == timer_of(old(tracker).timers()@, q),
        scanned_has(old(tracker).scanned()@, c) ==> *final(tracker) == *old(tracker),
        !scanned_has(old(tracker).scanned()@, c) ==> scanned_has(final(tracker).scanned()@, c),
        (!scanned_has(old(tracker).scanned()@, c) && spec_store_get(*store, c) is Some)
            ==> forall|x: int, y: int, z: int|
            0 <= x < 16 && 0 <= y < 16 && 0 <= z < 16 && spec_is_growing_wheat(
                crate::block::spec_from_id(
                    #[trigger] spec_store_get(*store, c)->Some_0@[crate::chunk::spec_index(
                        x,
                        y,
                        z,
                    )],
                ),
            ) ==> timer_of(final(tracker).timers()@, spec_cell_pos(c, x, y, z)) is Some && (
            timer_of(old(tracker).timers()@, spec_cell_pos(c, x, y, z)) is None ==> timer_of(
                final(tracker).timers()@,
                spec_cell_pos(c, x, y, z),
            )->Some_0 >= CROP_GROW_MIN_MS && timer_of(
                final(tracker).timers()@,
                spec_cell_pos(c, x, y, z),
            )->Some_0 < CROP_GROW_MAX_MS),
{
    if tracker.is_scanned(c) {
        return;
    }
    tracker.mark_scanned(c);
    let chunk = match store.get(c) {
        Some(ch) => ch,
        None => {
            return;
        },
    };
    let ghost t0 = tracker.timers()@;
    let mut k: usize = 0;
    while k < crate::chunk::CHUNK_VOLUME
        invariant
            timers_wf(*tracker),
            crate::chunk::chunk_wf(chunk),
            chunk@ == spec_store_get(*store, c)->Some_0@,
            store_wf(*store),
            spec_store_get(*store, c) is Some,
            growth_chunk_in_bounds(c),
            scanned_has(tracker.scanned()@, c),
            k <= crate::chunk::CHUNK_VOLUME,
            forall|q: WorldPos|
                timer_of(t0, q) is Some ==> #[trigger] timer_of(tracker.timers()@, q) == timer_of(
                    t0,
                    q,
                ),
            t0 == old(tracker).timers()@,
            forall|q: WorldPos|
                #[trigger] timer_of(tracker.timers()@, q) is Some ==> timer_of(t0, q) is Some
                    || (timer_of(tracker.timers()@, q)->Some_0 >= CROP_GROW_MIN_MS && timer_of(
                    tracker.timers()@,
                    q,
                )->Some_0 < CROP_GROW_MAX_MS),
            forall|x: int, y: int, z: int|
                0 <= x < 16 && 0 <= y < 16 && 0 <= z < 16 && crate::chunk::spec_index(x, y, z)
                    < k && spec_is_growing_wheat(
                    crate::block::spec_from_id(
                        #[trigger] chunk@[crate::chunk::spec_index(x, y, z)],
                    ),
                ) ==> timer_of(tracker.timers()@, spec_cell_pos(c, x, y, z)) is Some,
        decreases crate::chunk::CHUNK_VOLUME - k,
    {
        let x = k % 16;
        let z = (k % 256) / 16;
        let y = k / 256;
        proof {
            assert(crate::chunk::spec_index(x as int, y as int, z as int) == k) by (nonlinear_arith)
                requires
                    0 <= k < 4096,
                    x == k % 16,
                    z == (k % 256) / 16,
                    y == k / 256,
            ;
        }
        let b = chunk.get(x, y, z);
        if matches!(b, BlockType::WheatStage0 | BlockType::WheatStage1 | BlockType::WheatStage2) {
            let wp = WorldPos {
                x: c.x * 16 + x as i32,
                y: c.y * 16 + y as i32,
                z: c.z * 16 + z as i32,
            };
            proof {
                assert(wp == spec_cell_pos(c, x as int, y as int, z as int));
            }
            let delay = random_delay(CROP_GROW_MIN_MS, CROP_GROW_MAX_MS);
            let ghost before = tracker.timers()@;
            tracker.register(wp, delay);
            proof {
                assert forall|x2: int, y2: int, z2: int|
                    0 <= x2 < 16 && 0 <= y2 < 16 && 0 <= z2 < 16 && crate::chunk::spec_index(
                        x2,
                        y2,
                        z2,
                    ) < k + 1 && spec_is_growing_wheat(
                        crate::block::spec_from_id(
                            #[trigger] chunk@[crate::chunk::spec_index(x2, y2, z2)],
                        ),
                    ) implies timer_of(tracker.timers()@, spec_cell_pos(c, x2, y2, z2)) is Some
                    by {
                    let pos2 = spec_cell_pos(c, x2, y2, z2);
                    if pos2 != wp {
                        assert(timer_of(tracker.timers()@, pos2) == timer_of(before, pos2));
                    }
                }
            }
        }
        k += 1;
    }
}

/// Whether every chunk a grown tree would touch is resident.
fn tree_chunks_loaded(store: &ChunkStore, p: WorldPos, h: i32) -> (r: bool)
    requires
        store_wf(*store),
        growth_pos_in_bounds(p),
        5 <= h <= 7,
{
    let min = WorldPos { x: p.x - TREE_CANOPY_RADIUS, y: p.y, z: p.z - TREE_CANOPY_RADIUS };
    let max = WorldPos { x: p.x + TREE_CANOPY_RADIUS, y: p.y + h + 1, z: p.z + TREE_CANOPY_RADIUS };
    let cmin = crate::coords::world_to_chunk_pos(min);
    let cmax = crate::coords::world_to_chunk_pos(max);
    let mut cy = cmin.y;
    while cy <= cmax.y
        invariant
            store_wf(*store),
            cmin.y <= cy,
            cy <= cmax.y + 1 || cmax.y < cmin.y,
            -2000000 <= cmin.x <= 2000000 && -2000000 <= cmax.x <= 2000000,
            -2000000 <= cmin.y <= 2000000 && -2000000 <= cmax.y <= 2000000,
            -2000000 <= cmin.z <= 2000000 && -2000000 <= cmax.z <= 2000000,
        decreases cmax.y + 1 - cy,
    {
        let mut cz = cmin.z;
        while cz <= cmax.z
            invariant
                store_wf(*store),
                cmin.z <= cz,
                cz <= cmax.z + 1 || cmax.z < cmin.z,
                -2000000 <= cmin.x <= 2000000 && -2000000 <= cmax.x <= 2000000,
                -2000000 <= cmin.z <= 2000000 && -2000000 <= cmax.z <= 2000000,
            decreases cmax.z + 1 - cz,
        {
            let mut cx = cmin.x;
            while cx <= cmax.x
                invariant
                    store_wf(*store),
                    cmin.x <= cx,
                    cx <= cmax.x + 1 || cmax.x < cmin.x,
                    -2000000 <= cmin.x <= 2000000 && -2000000 <= cmax.x <= 2000000,
                decreases cmax.x + 1 - cx,
            {
                if !store.contains(ChunkPos { x: cx, y: cy, z: cz }) {
                    return false;
                }
                cx += 1;
            }
            cz += 1;
        }
        cy += 1;
    }
    true
}

/// Whether a sapling has enough free space above it to grow: the cells
/// directly above must be air or other saplings.
fn has_growth_space(store: &ChunkStore, p: WorldPos) -> (r: bool)
    requires
        store_wf(*store),
        growth_pos_in_bounds(p),
{
    let mut dy: i32 = 1;
    while dy <= TREE_SPACE_REQUIRED
        invariant
            store_wf(*store),
            growth_pos_in_bounds(p),
            1 <= dy <= TREE_SPACE_REQUIRED + 1,
        decreases TREE_SPACE_REQUIRED + 1 - dy,
    {
        let b = read_block(store, WorldPos { x: p.x, y: p.y + dy, z: p.z });
        if !matches!(b, BlockType::Air | BlockType::OakSapling | BlockType::BirchSapling) {
            return false;
        }
        dy += 1;
    }
    true
}

/// Stamp a grown tree into the store: the trunk replaces the sapling
/// column, leaves fill air cells of the canopy, and every touched position
/// requests a remesh.
fn grow_tree(
    store: &mut ChunkStore,
    manager: &mut StreamingManager,
    p: WorldPos,
    birch: bool,
    h: i32,
)
    requires
        store_wf(*old(store)),
        growth_pos_in_bounds(p),
        5 <= h <= 7,
    ensures
        store_wf(*final(store)),
        final(manager).loaded() == old(manager).loaded(),
        crate::stream::manager_wf(*old(manager)) ==> crate::stream::manager_wf(*final(manager)),
{
    let log = if birch {
        BlockType::BirchLog
    } else {
        BlockType::OakLog
    };
    let leaf = if birch {
        BlockType::BirchLeaves
    } else {
        BlockType::OakLeaves
    };
    let mut dy: i32 = 0;
    while dy <= h
        invariant
            store_wf(*store),
            growth_pos_in_bounds(p),
            5 <= h <= 7,
            0 <= dy <= h + 1,
            manager.loaded() == old(manager).loaded(),
            crate::stream::manager_wf(*old(manager)) ==> crate::stream::manager_wf(*manager),
        decreases h + 1 - dy,
    {
        let wp = WorldPos { x: p.x, y: p.y + dy, z: p.z };
        write_block(store, wp, log);
        request_remesh(manager, wp);
        dy += 1;
    }
    let mut off: i32 = h - 2;
    while off <= h + 1
        invariant
            store_wf(*store),
            growth_pos_in_bounds(p),
            5 <= h <= 7,
            h - 2 <= off <= h + 2,
            manager.loaded() == old(manager).loaded(),
            crate::stream::manager_wf(*old(manager)) ==> crate::stream::manager_wf(*manager),
        decreases h + 2 - off,
    {
        let radius: i32 = if off >= h {
            1
        } else {
            TREE_CANOPY_RADIUS
        };
        let mut dz: i32 = -radius;
        while dz <= radius
            invariant
                store_wf(*store),
                growth_pos_in_bounds(p),
                5 <= h <= 7,
                h - 2 <= off <= h + 1,
                1 <= radius <= 2,
                -radius <= dz <= radius + 1,
                manager.loaded() == old(manager).loaded(),
                crate::stream::manager_wf(*old(manager)) ==> crate::stream::manager_wf(*manager),
            decreases radius + 1 - dz,
        {
            let mut dx: i32 = -radius;
            while dx <= radius
                invariant
                    store_wf(*store),
                    growth_pos_in_bounds(p),
                    5 <= h <= 7,
                    h - 2 <= off <= h + 1,
                    1 <= radius <= 2,
                    -radius <= dz <= radius,
                    -radius <= dx <= radius + 1,
                    manager.loaded() == old(manager).loaded(),
                    crate::stream::manager_wf(*old(manager)) ==> crate::stream::manager_wf(
                        *manager,
                    ),
                decreases radius + 1 - dx,
            {
                let adx = if dx >= 0 {
                    dx
                } else {
                    -dx
                };
                let adz = if dz >= 0 {
                    dz
                } else {
                    -dz
                };
                let corner = adx == radius && adz == radius;
                let trunk = dx == 0 && dz == 0 && off <= h;
                if !corner && !trunk {
                    let wp = WorldPos { x: p.x + dx, y: p.y + off, z: p.z + dz };
                    let b = read_block(store, wp);
                    if matches!(b, BlockType::Air) {
                        write_block(store, wp, leaf);
                        request_remesh(manager, wp);
                    }
                }
                dx += 1;
            }
            dz += 1;
        }
        off += 1;
    }
}

/// Tick sapling growth: every timer whose position no longer holds a
/// sapling is dropped; every surviving timer is decreased by exactly the
/// elapsed time; and each expired sapling either stops being tracked (its
/// tree was stamped, or its block changed, or it lies outside the address
/// band) or is re-registered with a fresh delay inside the configured band
/// (its chunks were not all resident or the space above was blocked).
/// Positions never tracked stay untracked.
pub fn update_sapling_growth(
    tracker: &mut GrowthTimers,
    store: &mut ChunkStore,
    manager: &mut StreamingManager,
    dt_ms: u32,
)
    requires
        timers_wf(*old(tracker)),
        store_wf(*old(store)),
    ensures
        timers_wf(*final(tracker)),
        store_wf(*final(store)),
        final(manager).loaded() == old(manager).loaded(),
        crate::stream::manager_wf(*old(manager)) ==> crate::stream::manager_wf(*final(manager)),
        forall|q: WorldPos|
            timer_of(old(tracker).timers()@, q) is Some && !spec_is_sapling(
                crate::world::spec_block_at(*old(store), q),
            ) ==> #[trigger] timer_of(final(tracker).timers()@, q) is None,
        forall|q: WorldPos|
            timer_of(old(tracker).timers()@, q) is Some && spec_is_sapling(
                crate::world::spec_block_at(*old(store), q),
            ) && timer_of(old(tracker).timers()@, q)->Some_0 > dt_ms ==> #[trigger] timer_of(
                final(tracker).timers()@,
                q,
            ) == Some((timer_of(old(tracker).timers()@, q)->Some_0 - dt_ms) as u32),
        forall|q: WorldPos|
            timer_of(old(tracker).timers()@, q) is Some && spec_is_sapling(
                crate::world::spec_block_at(*old(store), q),
            ) && timer_of(old(tracker).timers()@, q)->Some_0 <= dt_ms ==> #[trigger] timer_of(
                final(tracker).timers()@,
                q,
            ) is None || (timer_of(final(tracker).timers()@, q) is Some && timer_of(
                final(tracker).timers()@,
                q,
            )->Some_0 >= SAPLING_GROW_MIN_MS && timer_of(final(tracker).timers()@, q)->Some_0
                < SAPLING_GROW_MAX_MS),
        forall|q: WorldPos|
            timer_of(old(tracker).timers()@, q) is None ==> #[trigger] timer_of(
                final(tracker).timers()@,
                q,
            ) is None,
{
    let ghost t0 = tracker.timers()@;
    let ghost s0 = *store;
    let ps = tracker.positions();
    let mut i: usize = 0;
    while i < ps.len()
        invariant
            timers_wf(*tracker),
            store_wf(*store),
            *store == s0,
            t0 == old(tracker).timers()@,
            ps@.len() == t0.len(),
            forall|j: int| 0 <= j < ps@.len() ==> #[trigger] ps@[j] == t0[j].0,
            tracker.scanned() == old(tracker).scanned(),
            i <= ps@.len(),
            forall|q: WorldPos|
                #[trigger] timer_of(tracker.timers()@, q) == (if (exists|j: int|
                    0 <= j < i && ps@[j] == q) && !spec_is_sapling(
                    crate::world::spec_block_at(s0, q),
                ) {
                    Option::<u32>::None
                } else {
                    timer_of(t0, q)
                }),
        decreases ps@.len() - i,
    {
        let p = ps[i];
        let b = read_block(store, p);
        let ghost before = tracker.timers()@;
        if !matches!(b, BlockType::OakSapling | BlockType::BirchSapling) {
            tracker.remove(p);
        }
        proof {
            assert forall|q: WorldPos|
                #[trigger] timer_of(tracker.timers()@, q) == (if (exists|j: int|
                    0 <= j < i + 1 && ps@[j] == q) && !spec_is_sapling(
                    crate::world::spec_block_at(s0, q),
                ) {
                    Option::<u32>::None
                } else {
                    timer_of(t0, q)
                }) by {
                if q == p {
                    assert(ps@[i as int] == q);
                } else {
                    assert(timer_of(tracker.timers()@, q) == timer_of(before, q));
                    if exists|j: int| 0 <= j < i + 1 && ps@[j] == q {
                        let j = choose|j: int| 0 <= j < i + 1 && ps@[j] == q;
                        assert(j < i);
                        assert(exists|j2: int| 0 <= j2 < i && ps@[j2] == q);
                    }
                }
            }
        }
        i += 1;
    }
    proof {
        // A tracked position is one of the listed positions.
        assert forall|q: WorldPos|
            timer_of(t0, q) is Some implies exists|j: int|
            0 <= j < ps@.len() && #[trigger] ps@[j] == q by {
            lemma_timer_is_entry(t0, q);
            let j = choose|j: int|
                0 <= j < t0.len() && (#[trigger] t0[j]).0 == q && t0[j].1 == timer_of(t0, q)
                    ->Some_0;
            assert(ps@[j] == q);
        }
    }
    let ready = tracker.tick(dt_ms);
    let ghost t1 = tracker.timers()@;
    let mut k: usize = 0;
    while k < ready.len()
        invariant
            timers_wf(*tracker),
            store_wf(*store),
            k <= ready@.len(),
            manager.loaded() == old(manager).loaded(),
            crate::stream::manager_wf(*old(manager)) ==> crate::stream::manager_wf(*manager),
            forall|q: WorldPos|
                !plan_ready(ready@, q) ==> #[trigger] timer_of(tracker.timers()@, q) == timer_of(
                    t1,
                    q,
                ),
            forall|q: WorldPos|
                plan_ready(ready@, q) ==> #[trigger] timer_of(tracker.timers()@, q) is None || (
                timer_of(tracker.timers()@, q) is Some && timer_of(tracker.timers()@, q)->Some_0
                    >= SAPLING_GROW_MIN_MS && timer_of(tracker.timers()@, q)->Some_0
                    < SAPLING_GROW_MAX_MS),
        decreases ready@.len() - k,
    {
        let p = ready[k];
        proof {
            assert(ready@[k as int] == p);
            assert(plan_ready(ready@, p));
        }
        let in_band = -16000000 <= p.x && p.x <= 16000000 && -16000000 <= p.y && p.y <= 16000000
            && -16000000 <= p.z && p.z <= 16000000;
        if in_band {
            let b = read_block(store, p);
            let is_sapling = matches!(b, BlockType::OakSapling | BlockType::BirchSapling);
            if is_sapling {
                let birch = matches!(b, BlockType::BirchSapling);
                let span: u32 = if birch {
                    3
                } else {
                    2
                };
                let h = 5 + (random_u32() % span) as i32;
                if !tree_chunks_loaded(store, p, h) || !has_growth_space(store, p) {
                    // Retry later, when the chunks may be loaded or the
                    // space may have cleared.
                    let delay = random_delay(SAPLING_GROW_MIN_MS, SAPLING_GROW_MAX_MS);
                    tracker.register(p, delay);
                } else {
                    grow_tree(store, manager, p, birch, h);
                }
            }
        }
        k += 1;
    }
}

/// Tick crop growth: every timer whose position no longer holds growing
/// wheat is dropped; every surviving timer is decreased by exactly the
/// elapsed time; and each expired crop either stops being tracked (it
/// reached its final stage, or its block changed, or it lies outside the
/// address band) or is re-registered with a fresh delay inside the crop
/// band (it was blocked from above, or stepped to a still-growing stage).
/// Positions never tracked stay untracked.
pub fn update_crop_growth(
    tracker: &mut GrowthTimers,
    store: &mut ChunkStore,
    manager: &mut StreamingManager,
    dt_ms: u32,
)
    requires
        timers_wf(*old(tracker)),
        store_wf(*old(store)),
    ensures
        timers_wf(*final(tracker)),
        store_wf(*final(store)),
        final(manager).loaded() == old(manager).loaded(),
        crate::stream::manager_wf(*old(manager)) ==> crate::stream::manager_wf(*final(manager)),
        forall|q: WorldPos|
            timer_of(old(tracker).timers()@, q) is Some && !spec_is_growing_wheat(
                crate::world::spec_block_at(*old(store), q),
            ) ==> #[trigger] timer_of(final(tracker).timers()@, q) is None,
        forall|q: WorldPos|
            timer_of(old(tracker).timers()@, q) is Some && spec_is_growing_wheat(
                crate::world::spec_block_at(*old(store), q),
            ) && timer_of(old(tracker).timers()@, q)->Some_0 > dt_ms ==> #[trigger] timer_of(
                final(tracker).timers()@,
                q,
            ) == Some((timer_of(old(tracker).timers()@, q)->Some_0 - dt_ms) as u32),
        forall|q: WorldPos|
            timer_of(old(tracker).timers()@, q) is Some && spec_is_growing_wheat(
                crate::world::spec_block_at(*old(store), q),
            ) && timer_of(old(tracker).timers()@, q)->Some_0 <= dt_ms ==> #[trigger] timer_of(
                final(tracker).timers()@,
                q,
            ) is None || (timer_of(final(tracker).timers()@, q) is Some && timer_of(
                final(tracker).timers()@,
                q,
            )->Some_0 >= CROP_GROW_MIN_MS && timer_of(final(tracker).timers()@, q)->Some_0
                < CROP_GROW_MAX_MS),
        forall|q: WorldPos|
            timer_of(old(tracker).timers()@, q) is None ==> #[trigger] timer_of(
                final(tracker).timers()@,
                q,
            ) is None,
{
    let ghost t0 = tracker.timers()@;
    let ghost s0 = *store;
    let ps = tracker.positions();
    let mut i: usize = 0;
    while i < ps.len()
        invariant
            timers_wf(*tracker),
            store_wf(*store),
            *store == s0,
            t0 == old(tracker).timers()@,
            ps@.len() == t0.len(),
            forall|j: int| 0 <= j < ps@.len() ==> #[trigger] ps@[j] == t0[j].0,
            tracker.scanned() == old(tracker).scanned(),
            i <= ps@.len(),
            forall|q: WorldPos|
                #[trigger] timer_of(tracker.timers()@, q) == (if (exists|j: int|
                    0 <= j < i && ps@[j] == q) && !spec_is_growing_wheat(
                    crate::world::spec_block_at(s0, q),
                ) {
                    Option::<u32>::None
                } else {
                    timer_of(t0, q)
                }),
        decreases ps@.len() - i,
    {
        let p = ps[i];
        let b = read_block(store, p);
        let ghost before = tracker.timers()@;
        if !matches!(b, BlockType::WheatStage0 | BlockType::WheatStage1 | BlockType::WheatStage2) {
            tracker.remove(p);
        }
        proof {
            assert forall|q: WorldPos|
                #[trigger] timer_of(tracker.timers()@, q) == (if (exists|j: int|
                    0 <= j < i + 1 && ps@[j] == q) && !spec_is_growing_wheat(
                    crate::world::spec_block_at(s0, q),
                ) {
                    Option::<u32>::None
                } else {
                    timer_of(t0, q)
                }) by {
                if q == p {
                    assert(ps@[i as int] == q);
                } else {
                    assert(timer_of(tracker.timers()@, q) == timer_of(before, q));
                    if exists|j: int| 0 <= j < i + 1 && ps@[j] == q {
                        let j = choose|j: int| 0 <= j < i + 1 && ps@[j] == q;
                        assert(j < i);
                        assert(exists|j2: int| 0 <= j2 < i && ps@[j2] == q);
                    }
                }
            }
        }
        i += 1;
    }
    proof {
        // A tracked position is one of the listed positions.
        assert forall|q: WorldPos|
            timer_of(t0, q) is Some implies exists|j: int|
            0 <= j < ps@.len() && #[trigger] ps@[j] == q by {
            lemma_timer_is_entry(t0, q);
            let j = choose|j: int|
                0 <= j < t0.len() && (#[trigger] t0[j]).0 == q && t0[j].1 == timer_of(t0, q)
                    ->Some_0;
            assert(ps@[j] == q);
        }
    }
    let ready = tracker.tick(dt_ms);
    let ghost t1 = tracker.timers()@;
    let mut k: usize = 0;
    while k < ready.len()
        invariant
            timers_wf(*tracker),
            store_wf(*store),
            k <= ready@.len(),
            manager.loaded() == old(manager).loaded(),
            crate::stream::manager_wf(*old(manager)) ==> crate::stream::manager_wf(*manager),
            forall|q: WorldPos|
                !plan_ready(ready@, q) ==> #[trigger] timer_of(tracker.timers()@, q) == timer_of(
                    t1,
                    q,
                ),
            forall|q: WorldPos|
                plan_ready(ready@, q) ==> #[trigger] timer_of(tracker.timers()@, q) is None || (
                timer_of(tracker.timers()@, q) is Some && timer_of(tracker.timers()@, q)->Some_0
                    >= CROP_GROW_MIN_MS && timer_of(tracker.timers()@, q)->Some_0
                    < CROP_GROW_MAX_MS),
        decreases ready@.len() - k,
    {
        let p = ready[k];
        proof {
            assert(ready@[k as int] == p);
            assert(plan_ready(ready@, p));
        }
        let in_band = -16000000 <= p.x && p.x <= 16000000 && -16000000 <= p.y && p.y < 16000000
            && -16000000 <= p.z && p.z <= 16000000;
        if in_band {
            let b = read_block(store, p);
            let above = read_block(store, WorldPos { x: p.x, y: p.y + 1, z: p.z });
            if !matches!(above, BlockType::Air) {
                // Blocked from light; retry later.
                if matches!(
                    b,
                    BlockType::WheatStage0 | BlockType::WheatStage1 | BlockType::WheatStage2,
                ) {
                    let delay = random_delay(CROP_GROW_MIN_MS, CROP_GROW_MAX_MS);
                    tracker.register(p, delay);
                }
            } else {
                let next = match b {
                    BlockType::WheatStage0 => Some(BlockType::WheatStage1),
                    BlockType::WheatStage1 => Some(BlockType::WheatStage2),
                    BlockType::WheatStage2 => Some(BlockType::WheatStage3),
                    _ => None,
                };
                match next {
                    Some(stage) => {
                        write_block(store, p, stage);
                        request_remesh(manager, p);
                        if !matches!(stage, BlockType::WheatStage3) {
                            let delay = random_delay(CROP_GROW_MIN_MS, CROP_GROW_MAX_MS);
                            tracker.register(p, delay);
                        }
                    },
                    None => {},
                }
            }
        }
        k += 1;
    }
}

} // verus!
