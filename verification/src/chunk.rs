//! Dense fixed-size voxel storage: a 16x16x16 grid of single-byte block ids,
//! linearized y-major (`y*256 + z*16 + x`) for horizontal-slice locality, with
//! a stable raw-buffer byte format.

use vstd::prelude::*;

use crate::block::{spec_from_id, spec_id, BlockType};

verus! {

/// Blocks per chunk edge.
pub const CHUNK_SIZE: usize = 16;

/// Cells per chunk: `CHUNK_SIZE` cubed.
pub const CHUNK_VOLUME: usize = 4096;

/// The y-major linear index of a local cell position.
pub open spec fn spec_index(x: int, y: int, z: int) -> int {
    y * 256 + z * 16 + x
}

/// A 16x16x16 cube of voxels: the unit of storage, streaming and meshing.
/// The view is the 4096-byte id buffer in y-major order.
pub struct Chunk {
    blocks: Vec<u8>,
}

impl Clone for Chunk {
    /// Cloning copies every cell.
    fn clone(&self) -> (r: Self)
        ensures
            r@ == self@,
    {
        let mut blocks: Vec<u8> = Vec::new();
        let n = self.blocks.len();
        let mut i: usize = 0;
        while i < n
            invariant
                n == self@.len(),
                i <= n,
                blocks@ == self@.subrange(0, i as int),
            decreases n - i,
        {
            blocks.push(self.blocks[i]);
            i += 1;
        }
        proof {
            assert(blocks@ =~= self@);
        }
        Chunk { blocks }
    }
}

impl View for Chunk {
    type V = Seq<u8>;

    closed spec fn view(&self) -> Seq<u8> {
        self.blocks@
    }
}

/// A chunk is well formed when it holds exactly one byte per cell.
pub open spec fn chunk_wf(c: Chunk) -> bool {
    c@.len() == CHUNK_VOLUME
}

impl Chunk {
    /// A chunk of pure air: every cell zero.
    pub fn new() -> (r: Self)
        ensures
            chunk_wf(r),
            forall|i: int| 0 <= i < CHUNK_VOLUME ==> r@[i] == 0u8,
    {
        let mut blocks: Vec<u8> = Vec::new();
        let mut i: usize = 0;
        while i < CHUNK_VOLUME
            invariant
                i <= CHUNK_VOLUME,
                blocks@.len() == i,
                forall|j: int| 0 <= j < i ==> blocks@[j] == 0u8,
            decreases CHUNK_VOLUME - i,
        {
            blocks.push(0u8);
            i += 1;
        }
        Chunk { blocks }
    }

    /// The y-major linear index of a local cell position.
    pub fn index(x: usize, y: usize, z: usize) -> (r: usize)
        requires
            x < CHUNK_SIZE,
            y < CHUNK_SIZE,
            z < CHUNK_SIZE,
        ensures
            r == spec_index(x as int, y as int, z as int),
            r < CHUNK_VOLUME,
    {
        y * CHUNK_SIZE * CHUNK_SIZE + z * CHUNK_SIZE + x
    }

    /// The block stored at a local cell position.
    pub fn get(&self, x: usize, y: usize, z: usize) -> (r: BlockType)
        requires
            chunk_wf(*self),
            x < CHUNK_SIZE,
            y < CHUNK_SIZE,
            z < CHUNK_SIZE,
        ensures
            r == spec_from_id(self@[spec_index(x as int, y as int, z as int)]),
    {
        let i = Self::index(x, y, z);
        BlockType::from_id(self.blocks[i])
    }

    /// Store a block at a local cell position; every other cell is unchanged.
    pub fn set(&mut self, x: usize, y: usize, z: usize, block: BlockType)
        requires
            chunk_wf(*old(self)),
            x < CHUNK_SIZE,
            y < CHUNK_SIZE,
            z < CHUNK_SIZE,
        ensures
            chunk_wf(*final(self)),
            final(self)@ == old(self)@.update(
                spec_index(x as int, y as int, z as int),
                spec_id(block),
            ),
    {
        let i = Self::index(x, y, z);
        let id = block.id();
        self.blocks.set(i, id);
    }

    /// True iff every cell is air; used to short-circuit mesh building.
    pub fn is_empty(&self) -> (r: bool)
        requires
            chunk_wf(*self),
        ensures
            r == forall|i: int| 0 <= i < CHUNK_VOLUME ==> self@[i] == 0u8,
    {
        let mut i: usize = 0;
        while i < CHUNK_VOLUME
            invariant
                chunk_wf(*self),
                i <= CHUNK_VOLUME,
                forall|j: int| 0 <= j < i ==> self@[j] == 0u8,
            decreases CHUNK_VOLUME - i,
        {
            if self.blocks[i] != 0u8 {
                return false;
            }
            i += 1;
        }
        true
    }

    /// The stable byte format: a copy of the raw 4096-byte id buffer.
    pub fn serialize(&self) -> (r: Vec<u8>)
        requires
            chunk_wf(*self),
        ensures
            r@ == self@,
    {
        let mut out: Vec<u8> = Vec::new();
        let mut i: usize = 0;
        while i < CHUNK_VOLUME
            invariant
                chunk_wf(*self),
                i <= CHUNK_VOLUME,
                out@ == self@.subrange(0, i as int),
            decreases CHUNK_VOLUME - i,
        {
            out.push(self.blocks[i]);
            i += 1;
        }
        proof {
            assert(out@ =~= self@);
        }
        out
    }

    /// Rebuild a chunk from a serialized buffer. Only the length is
    /// validated: a buffer of any other size is rejected, while unrecognized
    /// id bytes are kept and degrade to air on `get`.
    pub fn deserialize(bytes: &[u8]) -> (r: Option<Chunk>)
        ensures
            r is Some <==> bytes@.len() == CHUNK_VOLUME,
            r is Some ==> chunk_wf(r->Some_0) && Some(r->Some_0@) == spec_deserialize(bytes@),
    {
        if bytes.len() != CHUNK_VOLUME {
            return None;
        }
        let mut blocks: Vec<u8> = Vec::new();
        let mut i: usize = 0;
        while i < CHUNK_VOLUME
            invariant
                bytes@.len() == CHUNK_VOLUME,
                i <= CHUNK_VOLUME,
                blocks@ == bytes@.subrange(0, i as int),
            decreases CHUNK_VOLUME - i,
        {
            blocks.push(bytes[i]);
            i += 1;
        }
        proof {
            assert(blocks@ =~= bytes@);
        }
        Some(Chunk { blocks })
    }
}

impl Default for Chunk {
    /// The default chunk is all air.
    fn default() -> (r: Self)
        ensures
            chunk_wf(r),
            forall|i: int| 0 <= i < CHUNK_VOLUME ==> r@[i] == 0u8,
    {
        Chunk::new()
    }
}

/// What `serialize` returns: the chunk's id buffer.
pub open spec fn spec_serialize(c: Chunk) -> Seq<u8> {
    c@
}

/// What `deserialize` accepts and returns: exactly the 4096-byte buffers,
/// restored unchanged.
pub open spec fn spec_deserialize(b: Seq<u8>) -> Option<Seq<u8>> {
    if b.len() == CHUNK_VOLUME {
        Some(b)
    } else {
        None
    }
}

/// Serialization round-trip: deserializing a chunk's serialized buffer
/// succeeds and restores every one of its 4096 cells.
pub proof fn lemma_serialize_roundtrip(c: Chunk)
    requires
        chunk_wf(c),
    ensures
        spec_deserialize(spec_serialize(c)) == Some(c@),
{
}

} // verus!
