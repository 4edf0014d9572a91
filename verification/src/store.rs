//! The chunk store: the single source of truth for resident chunk data,
//! a map from chunk coordinate to chunk plus the set of dirty coordinates
//! awaiting persistence. Held as association lists with unique keys; the
//! dirty set is always a subset of the resident keys.

use vstd::prelude::*;

use crate::block::{spec_from_id, spec_id, BlockType};
use crate::chunk::{chunk_wf, spec_index, Chunk, CHUNK_SIZE};
use crate::coords::ChunkPos;

verus! {

/// First chunk stored under a coordinate, if any.
pub open spec fn assoc_get(s: Seq<(ChunkPos, Chunk)>, p: ChunkPos) -> Option<Chunk>
    decreases s.len(),
{
    if s.len() == 0 {
        None
    } else if s[0].0 == p {
        Some(s[0].1)
    } else {
        assoc_get(s.skip(1), p)
    }
}

/// Whether a coordinate list holds a coordinate.
pub open spec fn pos_in(s: Seq<ChunkPos>, p: ChunkPos) -> bool {
    exists|i: int| 0 <= i < s.len() && s[i] == p
}

/// A match at the first matching index is what the association list holds.
proof fn lemma_assoc_get_found(s: Seq<(ChunkPos, Chunk)>, p: ChunkPos, i: int)
    requires
        0 <= i < s.len(),
        s[i].0 == p,
        forall|j: int| 0 <= j < i ==> (#[trigger] s[j]).0 != p,
    ensures
        assoc_get(s, p) == Some(s[i].1),
    decreases i,
{
    if i > 0 {
        assert(s[0].0 != p);
        lemma_assoc_get_found(s.skip(1), p, i - 1);
    }
}

/// With no matching key the association list holds nothing.
proof fn lemma_assoc_get_none(s: Seq<(ChunkPos, Chunk)>, p: ChunkPos)
    requires
        forall|j: int| 0 <= j < s.len() ==> (#[trigger] s[j]).0 != p,
    ensures
        assoc_get(s, p) is None,
    decreases s.len(),
{
    if s.len() > 0 {
        lemma_assoc_get_none(s.skip(1), p);
    }
}

/// Authoritative map of resident chunk data plus the dirty set.
pub struct ChunkStore {
    entries: Vec<(ChunkPos, Chunk)>,
    dirty: Vec<ChunkPos>,
}

/// Store well-formedness: one chunk per coordinate, every chunk well
/// formed, the dirty set duplicate-free and a subset of the resident keys.
pub open spec fn store_wf(s: ChunkStore) -> bool {
    &&& forall|i: int, j: int|
        0 <= i < j < s.entries()@.len() ==> (#[trigger] s.entries()@[i]).0 != (
        #[trigger] s.entries()@[j]).0
    &&& forall|i: int| 0 <= i < s.entries()@.len() ==> chunk_wf((#[trigger] s.entries()@[i]).1)
    &&& forall|i: int, j: int|
        0 <= i < j < s.dirty()@.len() ==> #[trigger] s.dirty()@[i] != #[trigger] s.dirty()@[j]
    &&& forall|i: int|
        0 <= i < s.dirty()@.len() ==> assoc_get(s.entries()@, #[trigger] s.dirty()@[i]) is Some
}

/// What the store holds at a coordinate.
pub open spec fn spec_store_get(s: ChunkStore, p: ChunkPos) -> Option<Chunk> {
    assoc_get(s.entries()@, p)
}

/// Whether a coordinate is marked dirty.
pub open spec fn spec_store_dirty(s: ChunkStore, p: ChunkPos) -> bool {
    pos_in(s.dirty()@, p)
}

impl ChunkStore {
    /// The resident entries, for specification.
    pub closed spec fn entries(self) -> Vec<(ChunkPos, Chunk)> {
        self.entries
    }

    /// The dirty coordinates, for specification.
    pub closed spec fn dirty(self) -> Vec<ChunkPos> {
        self.dirty
    }

    /// An empty store: nothing resident, nothing dirty.
    pub fn new() -> (r: Self)
        ensures
            store_wf(r),
            forall|p: ChunkPos| spec_store_get(r, p) is None,
            forall|p: ChunkPos| !spec_store_dirty(r, p),
    {
        let r = ChunkStore { entries: Vec::new(), dirty: Vec::new() };
        proof {
            assert forall|p: ChunkPos| spec_store_get(r, p) is None by {
                assert(r.entries()@.len() == 0);
            }
        }
        r
    }

    /// How many chunks are resident.
    pub fn len(&self) -> (r: usize)
        ensures
            r == self.entries()@.len(),
    {
        self.entries.len()
    }

    /// Find a coordinate's slot in the entry list.
    fn index_of(&self, p: ChunkPos) -> (r: Option<usize>)
        requires
            store_wf(*self),
        ensures
            r is Some ==> r->Some_0 < self.entries()@.len() && self.entries()@[
                r->Some_0 as int
            ].0 == p && spec_store_get(*self, p) == Some(
                self.entries()@[r->Some_0 as int].1,
            ),
            r is None ==> spec_store_get(*self, p) is None,
    {
        let n = self.entries.len();
        let mut i: usize = 0;
        while i < n
            invariant
                store_wf(*self),
                n == self.entries()@.len(),
                i <= n,
                forall|j: int| 0 <= j < i ==> (#[trigger] self.entries()@[j]).0 != p,
            decreases n - i,
        {
            if self.entries[i].0 == p {
                proof {
                    lemma_assoc_get_found(self.entries()@, p, i as int);
                }
                return Some(i);
            }
            i += 1;
        }
        proof {
            lemma_assoc_get_none(self.entries()@, p);
        }
        None
    }

    /// Whether a chunk is resident at a coordinate.
    pub fn contains(&self, p: ChunkPos) -> (r: bool)
        requires
            store_wf(*self),
        ensures
            r == (spec_store_get(*self, p) is Some),
    {
        self.index_of(p).is_some()
    }

    /// A copy of the chunk at a coordinate, if resident.
    pub fn get(&self, p: ChunkPos) -> (r: Option<Chunk>)
        requires
            store_wf(*self),
        ensures
            r is Some <==> spec_store_get(*self, p) is Some,
            r is Some ==> r->Some_0@ == spec_store_get(*self, p)->Some_0@ && chunk_wf(r->Some_0),
    {
        match self.index_of(p) {
            Some(i) => Some(self.entries[i].1.clone()),
            None => None,
        }
    }

    /// Make a coordinate resident with the given chunk, replacing any
    /// previous chunk there; every other coordinate is untouched.
    pub fn insert(&mut self, p: ChunkPos, c: Chunk)
        requires
            store_wf(*old(self)),
            chunk_wf(c),
        ensures
            store_wf(*final(self)),
            spec_store_get(*final(self), p) == Some(c),
            forall|q: ChunkPos|
                q != p ==> #[trigger] spec_store_get(*final(self), q) == spec_store_get(
                    *old(self),
                    q,
                ),
            forall|q: ChunkPos|
                #[trigger] spec_store_dirty(*final(self), q) == spec_store_dirty(*old(self), q),
    {
        let ghost pre = *self;
        match self.index_of(p) {
            Some(i) => {
                self.entries.set(i, (p, c));
                proof {
                    assert forall|q: ChunkPos| q != p implies #[trigger] spec_store_get(
                        *self,
                        q,
                    ) == spec_store_get(pre, q) by {
                        lemma_assoc_update(pre.entries()@, self.entries()@, p, c, i as int, q);
                    }
                    lemma_assoc_get_found(self.entries()@, p, i as int);
                    assert forall|j: int|
                        0 <= j < self.dirty()@.len() implies assoc_get(
                        self.entries()@,
                        #[trigger] self.dirty()@[j],
                    ) is Some by {
                        if self.dirty()@[j] == p {
                        } else {
                            lemma_assoc_update(
                                pre.entries()@,
                                self.entries()@,
                                p,
                                c,
                                i as int,
                                self.dirty()@[j],
                            );
                        }
                    }
                }
            },
            None => {
                self.entries.push((p, c));
                proof {
                    let s = self.entries()@;
                    let pre_s = pre.entries()@;
                    assert(s == pre_s.push((p, c)));
                    lemma_assoc_push(pre_s, p, c);
                    assert(spec_store_get(*self, p) == Some(c));
                    assert forall|q: ChunkPos| q != p implies #[trigger] spec_store_get(
                        *self,
                        q,
                    ) == spec_store_get(pre, q) by {
                        lemma_assoc_push_other(pre_s, p, c, q);
                    }
                    assert forall|j: int|
                        0 <= j < self.dirty()@.len() implies assoc_get(
                        self.entries()@,
                        #[trigger] self.dirty()@[j],
                    ) is Some by {
                        if self.dirty()@[j] == p {
                        } else {
                            lemma_assoc_push_other(pre_s, p, c, self.dirty()@[j]);
                        }
                    }
                    assert forall|i2: int, j2: int|
                        0 <= i2 < j2 < s.len() implies (#[trigger] s[i2]).0 != (
                        #[trigger] s[j2]).0 by {
                        if j2 == s.len() - 1 {
                            if s[i2].0 == p {
                                lemma_assoc_get_found_exists(pre_s, p, i2);
                            }
                        }
                    }
                }
            },
        }
    }

    /// Evict a coordinate: it is no longer resident nor dirty; every other
    /// coordinate is untouched.
    pub fn remove(&mut self, p: ChunkPos)
        requires
            store_wf(*old(self)),
        ensures
            store_wf(*final(self)),
            spec_store_get(*final(self), p) is None,
            !spec_store_dirty(*final(self), p),
            forall|q: ChunkPos|
                q != p ==> #[trigger] spec_store_get(*final(self), q) == spec_store_get(
                    *old(self),
                    q,
                ),
            forall|q: ChunkPos|
                q != p ==> #[trigger] spec_store_dirty(*final(self), q) == spec_store_dirty(
                    *old(self),
                    q,
                ),
    {
        self.clear_dirty(p);
        let ghost mid = *self;
        match self.index_of(p) {
            Some(i) => {
                self.entries.remove(i);
                proof {
                    assert(self.entries()@ == mid.entries()@.remove(i as int));
                    assert(self.dirty()@ == mid.dirty()@);
                    lemma_assoc_remove(mid.entries()@, p, i as int);
                    assert forall|q: ChunkPos| q != p implies #[trigger] spec_store_get(
                        *self,
                        q,
                    ) == spec_store_get(*old(self), q) by {
                        assert(assoc_get(mid.entries()@.remove(i as int), q) == assoc_get(
                            mid.entries()@,
                            q,
                        ));
                        assert(spec_store_get(mid, q) == assoc_get(mid.entries()@, q));
                    }
                    assert forall|q: ChunkPos| q != p implies #[trigger] spec_store_dirty(
                        *self,
                        q,
                    ) == spec_store_dirty(*old(self), q) by {
                        assert(spec_store_dirty(*self, q) == spec_store_dirty(mid, q));
                    }
                    assert forall|j: int|
                        0 <= j < self.dirty()@.len() implies assoc_get(
                        self.entries()@,
                        #[trigger] self.dirty()@[j],
                    ) is Some by {
                        assert(self.dirty()@[j] != p);
                        assert(assoc_get(mid.entries()@.remove(i as int), self.dirty()@[j])
                            == assoc_get(mid.entries()@, self.dirty()@[j]));
                    }
                    assert forall|i2: int, j2: int|
                        0 <= i2 < j2 < self.entries()@.len() implies (
                        #[trigger] self.entries()@[i2]).0 != (#[trigger] self.entries()@[j2]).0
                        by {
                        let a = if i2 < i {
                            i2
                        } else {
                            i2 + 1
                        };
                        let bdx = if j2 < i {
                            j2
                        } else {
                            j2 + 1
                        };
                        assert(self.entries()@[i2] == mid.entries()@[a]);
                        assert(self.entries()@[j2] == mid.entries()@[bdx]);
                    }
                    assert forall|i2: int|
                        0 <= i2 < self.entries()@.len() implies chunk_wf(
                        (#[trigger] self.entries()@[i2]).1,
                    ) by {
                        let a = if i2 < i {
                            i2
                        } else {
                            i2 + 1
                        };
                        assert(self.entries()@[i2] == mid.entries()@[a]);
                    }
                }
            },
            None => {},
        }
    }

    /// Whether a coordinate awaits persistence.
    pub fn is_dirty(&self, p: ChunkPos) -> (r: bool)
        requires
            store_wf(*self),
        ensures
            r == spec_store_dirty(*self, p),
    {
        let n = self.dirty.len();
        let mut i: usize = 0;
        while i < n
            invariant
                n == self.dirty()@.len(),
                i <= n,
                forall|j: int| 0 <= j < i ==> #[trigger] self.dirty()@[j] != p,
            decreases n - i,
        {
            if self.dirty[i] == p {
                return true;
            }
            i += 1;
        }
        false
    }

    /// Mark a resident coordinate dirty; marking an absent coordinate or
    /// one already dirty changes nothing.
    pub fn mark_dirty(&mut self, p: ChunkPos)
        requires
            store_wf(*old(self)),
        ensures
            store_wf(*final(self)),
            forall|q: ChunkPos|
                #[trigger] spec_store_get(*final(self), q) == spec_store_get(*old(self), q),
            spec_store_dirty(*final(self), p) == (spec_store_dirty(*old(self), p)
                || spec_store_get(*old(self), p) is Some),
            forall|q: ChunkPos|
                q != p ==> #[trigger] spec_store_dirty(*final(self), q) == spec_store_dirty(
                    *old(self),
                    q,
                ),
    {
        if self.is_dirty(p) {
            return;
        }
        let ghost pre = *self;
        if self.contains(p) {
            self.dirty.push(p);
            proof {
                assert(self.dirty()@ == pre.dirty()@.push(p));
                assert(self.dirty()@[self.dirty()@.len() - 1] == p);
                assert(spec_store_dirty(*self, p));
                assert forall|q: ChunkPos| q != p implies #[trigger] spec_store_dirty(*self, q)
                    == spec_store_dirty(pre, q) by {
                    if spec_store_dirty(pre, q) {
                        let w = choose|w: int| 0 <= w < pre.dirty()@.len() && pre.dirty()@[w] == q;
                        assert(self.dirty()@[w] == q);
                    } else if spec_store_dirty(*self, q) {
                        let w = choose|w: int|
                            0 <= w < self.dirty()@.len() && self.dirty()@[w] == q;
                        assert(w < pre.dirty()@.len());
                        assert(pre.dirty()@[w] == q);
                    }
                }
                assert forall|i2: int, j2: int|
                    0 <= i2 < j2 < self.dirty()@.len() implies #[trigger] self.dirty()@[i2]
                    != #[trigger] self.dirty()@[j2] by {
                    if j2 == self.dirty()@.len() - 1 {
                        assert(self.dirty()@[i2] == pre.dirty()@[i2]);
                        assert(!spec_store_dirty(pre, p));
                        if pre.dirty()@[i2] == p {
                            assert(pos_in(pre.dirty()@, p));
                        }
                    }
                }
            }
        }
    }

    /// Clear a coordinate's dirty mark; every other mark is untouched.
    pub fn clear_dirty(&mut self, p: ChunkPos)
        requires
            store_wf(*old(self)),
        ensures
            store_wf(*final(self)),
            forall|q: ChunkPos|
                #[trigger] spec_store_get(*final(self), q) == spec_store_get(*old(self), q),
            !spec_store_dirty(*final(self), p),
            forall|q: ChunkPos|
                q != p ==> #[trigger] spec_store_dirty(*final(self), q) == spec_store_dirty(
                    *old(self),
                    q,
                ),
    {
        let n = self.dirty.len();
        let mut i: usize = 0;
        while i < n
            invariant
                store_wf(*self),
                *self == *old(self),
                n == self.dirty()@.len(),
                i <= n,
                forall|j: int| 0 <= j < i ==> #[trigger] self.dirty()@[j] != p,
            decreases n - i,
        {
            if self.dirty[i] == p {
                let ghost pre = *self;
                self.dirty.remove(i);
                proof {
                    assert(self.dirty()@ == pre.dirty()@.remove(i as int));
                    assert forall|q: ChunkPos|
                        q != p implies #[trigger] spec_store_dirty(*self, q)
                        == spec_store_dirty(pre, q) by {
                        if spec_store_dirty(pre, q) {
                            let w = choose|w: int|
                                0 <= w < pre.dirty()@.len() && pre.dirty()@[w] == q;
                            if w < i {
                                assert(self.dirty()@[w] == q);
                            } else {
                                assert(self.dirty()@[w - 1] == q);
                            }
                        } else {
                            if spec_store_dirty(*self, q) {
                                let w = choose|w: int|
                                    0 <= w < self.dirty()@.len() && self.dirty()@[w] == q;
                                if w < i {
                                    assert(pre.dirty()@[w] == q);
                                } else {
                                    assert(pre.dirty()@[w + 1] == q);
                                }
                            }
                        }
                    }
                    assert forall|j: int|
                        0 <= j < self.dirty()@.len() implies #[trigger] self.dirty()@[j]
                        != p by {
                        if j < i {
                            assert(self.dirty()@[j] == pre.dirty()@[j]);
                        } else {
                            assert(self.dirty()@[j] == pre.dirty()@[j + 1]);
                        }
                    }
                    assert(!spec_store_dirty(*self, p));
                }
                return;
            }
            i += 1;
        }
        proof {
            assert(!spec_store_dirty(*self, p));
        }
    }

    /// The dirty coordinates, copied out for a persistence pass.
    pub fn dirty_positions(&self) -> (r: Vec<ChunkPos>)
        requires
            store_wf(*self),
        ensures
            r@ == self.dirty()@,
            forall|p: ChunkPos| pos_in(r@, p) == spec_store_dirty(*self, p),
    {
        let mut out: Vec<ChunkPos> = Vec::new();
        let n = self.dirty.len();
        let mut i: usize = 0;
        while i < n
            invariant
                n == self.dirty()@.len(),
                i <= n,
                out@ == self.dirty()@.subrange(0, i as int),
            decreases n - i,
        {
            out.push(self.dirty[i]);
            i += 1;
        }
        proof {
            assert(out@ =~= self.dirty()@);
        }
        out
    }

    /// Write one block of a resident chunk and mark its coordinate dirty;
    /// an absent coordinate changes nothing. Exactly the addressed cell of
    /// the addressed chunk changes.
    pub fn set_block(&mut self, p: ChunkPos, x: usize, y: usize, z: usize, b: BlockType)
        requires
            store_wf(*old(self)),
            x < CHUNK_SIZE,
            y < CHUNK_SIZE,
            z < CHUNK_SIZE,
        ensures
            store_wf(*final(self)),
            spec_store_get(*old(self), p) is Some ==> spec_store_get(*final(self), p) is Some
                && spec_store_get(*final(self), p)->Some_0@ == spec_store_get(
                *old(self),
                p,
            )->Some_0@.update(spec_index(x as int, y as int, z as int), spec_id(b))
                && spec_store_dirty(*final(self), p),
            spec_store_get(*old(self), p) is None ==> *final(self) == *old(self),
            forall|q: ChunkPos|
                q != p ==> #[trigger] spec_store_get(*final(self), q) == spec_store_get(
                    *old(self),
                    q,
                ),
            forall|q: ChunkPos|
                q != p ==> spec_store_dirty(*final(self), q) == spec_store_dirty(*old(self), q),
    {
        match self.get(p) {
            Some(mut c) => {
                c.set(x, y, z, b);
                self.insert(p, c);
                self.mark_dirty(p);
            },
            None => {},
        }
    }

    /// Read one block of a resident chunk; an absent chunk reads as air.
    pub fn get_block(&self, p: ChunkPos, x: usize, y: usize, z: usize) -> (r: BlockType)
        requires
            store_wf(*self),
            x < CHUNK_SIZE,
            y < CHUNK_SIZE,
            z < CHUNK_SIZE,
        ensures
            r == (match spec_store_get(*self, p) {
                Some(c) => spec_from_id(c@[spec_index(x as int, y as int, z as int)]),
                None => BlockType::Air,
            }),
    {
        match self.index_of(p) {
            Some(i) => self.entries[i].1.get(x, y, z),
            None => BlockType::Air,
        }
    }
}

/// Updating a slot in place only changes that slot's key.
proof fn lemma_assoc_update(
    pre: Seq<(ChunkPos, Chunk)>,
    post: Seq<(ChunkPos, Chunk)>,
    p: ChunkPos,
    c: Chunk,
    i: int,
    q: ChunkPos,
)
    requires
        0 <= i < pre.len(),
        pre[i].0 == p,
        post == pre.update(i, (p, c)),
        q != p,
    ensures
        assoc_get(post, q) == assoc_get(pre, q),
    decreases i,
{
    if pre.len() > 0 {
        if i == 0 {
            assert(post.skip(1) =~= pre.skip(1));
        } else {
            assert(post[0] == pre[0]);
            if pre[0].0 == q {
            } else {
                assert(post.skip(1) =~= pre.skip(1).update(i - 1, (p, c)));
                lemma_assoc_update(pre.skip(1), post.skip(1), p, c, i - 1, q);
            }
        }
    }
}

/// Appending a fresh key makes it resident.
proof fn lemma_assoc_push(pre: Seq<(ChunkPos, Chunk)>, p: ChunkPos, c: Chunk)
    requires
        assoc_get(pre, p) is None,
    ensures
        assoc_get(pre.push((p, c)), p) == Some(c),
    decreases pre.len(),
{
    let post = pre.push((p, c));
    if pre.len() == 0 {
        assert(post[0] == (p, c));
    } else {
        assert(pre[0].0 != p);
        assert(post[0] == pre[0]);
        assert(post.skip(1) =~= pre.skip(1).push((p, c)));
        lemma_assoc_push(pre.skip(1), p, c);
    }
}

/// Appending an entry leaves every other key unchanged.
proof fn lemma_assoc_push_other(pre: Seq<(ChunkPos, Chunk)>, p: ChunkPos, c: Chunk, q: ChunkPos)
    requires
        q != p,
    ensures
        assoc_get(pre.push((p, c)), q) == assoc_get(pre, q),
    decreases pre.len(),
{
    let post = pre.push((p, c));
    if pre.len() == 0 {
        assert(post[0] == (p, c));
        assert(post.skip(1) =~= Seq::<(ChunkPos, Chunk)>::empty());
        assert(assoc_get(post.skip(1), q) is None);
        assert(assoc_get(pre, q) is None);
        assert(assoc_get(post, q) is None);
    } else {
        assert(post[0] == pre[0]);
        if pre[0].0 == q {
        } else {
            assert(post.skip(1) =~= pre.skip(1).push((p, c)));
            lemma_assoc_push_other(pre.skip(1), p, c, q);
        }
    }
}

/// A resident key occurs somewhere in the list.
proof fn lemma_assoc_get_found_exists(s: Seq<(ChunkPos, Chunk)>, p: ChunkPos, i: int)
    requires
        0 <= i < s.len(),
        s[i].0 == p,
    ensures
        assoc_get(s, p) is Some,
    decreases i,
{
    if i > 0 && s[0].0 != p {
        lemma_assoc_get_found_exists(s.skip(1), p, i - 1);
    }
}

/// Removing a slot removes its key and no other.
proof fn lemma_assoc_remove(pre: Seq<(ChunkPos, Chunk)>, p: ChunkPos, i: int)
    requires
        0 <= i < pre.len(),
        pre[i].0 == p,
        forall|i2: int, j2: int|
            0 <= i2 < j2 < pre.len() ==> (#[trigger] pre[i2]).0 != (#[trigger] pre[j2]).0,
    ensures
        assoc_get(pre.remove(i), p) is None,
        forall|q: ChunkPos|
            q != p ==> #[trigger] assoc_get(pre.remove(i), q) == assoc_get(pre, q),
    decreases i,
{
    let post = pre.remove(i);
    assert forall|j: int| 0 <= j < post.len() implies (#[trigger] post[j]).0 != p by {
        if j < i {
            assert(post[j] == pre[j]);
        } else {
            assert(post[j] == pre[j + 1]);
        }
    }
    lemma_assoc_get_none(post, p);
    assert forall|q: ChunkPos| q != p implies #[trigger] assoc_get(post, q) == assoc_get(
        pre,
        q,
    ) by {
        lemma_assoc_remove_other(pre, i, q);
    }
}

/// Removing one slot leaves every other key's lookup unchanged.
proof fn lemma_assoc_remove_other(pre: Seq<(ChunkPos, Chunk)>, i: int, q: ChunkPos)
    requires
        0 <= i < pre.len(),
        pre[i].0 != q,
    ensures
        assoc_get(pre.remove(i), q) == assoc_get(pre, q),
    decreases pre.len(),
{
    if i == 0 {
        assert(pre.remove(0) =~= pre.skip(1));
    } else {
        if pre[0].0 == q {
            assert(pre.remove(i)[0] == pre[0]);
        } else {
            assert(pre.remove(i)[0] == pre[0]);
            assert(pre.remove(i).skip(1) =~= pre.skip(1).remove(i - 1));
            lemma_assoc_remove_other(pre.skip(1), i - 1, q);
        }
    }
}


/// A resident value is one of the entries.
proof fn lemma_assoc_get_is_entry(s: Seq<(ChunkPos, Chunk)>, p: ChunkPos)
    requires
        assoc_get(s, p) is Some,
    ensures
        exists|i: int|
            0 <= i < s.len() && (#[trigger] s[i]).0 == p && s[i].1 == assoc_get(s, p)->Some_0,
    decreases s.len(),
{
    if s[0].0 == p {
        assert(s[0].0 == p && s[0].1 == assoc_get(s, p)->Some_0);
    } else {
        lemma_assoc_get_is_entry(s.skip(1), p);
        let i = choose|i: int|
            0 <= i < s.skip(1).len() && (#[trigger] s.skip(1)[i]).0 == p && s.skip(1)[i].1
                == assoc_get(s.skip(1), p)->Some_0;
        assert(s[i + 1].0 == p && s[i + 1].1 == assoc_get(s, p)->Some_0);
    }
}

/// Every chunk a well-formed store holds is itself well formed.
pub proof fn lemma_store_get_wf(s: ChunkStore, p: ChunkPos)
    requires
        store_wf(s),
        spec_store_get(s, p) is Some,
    ensures
        chunk_wf(spec_store_get(s, p)->Some_0),
{
    lemma_assoc_get_is_entry(s.entries()@, p);
}

} // verus!
