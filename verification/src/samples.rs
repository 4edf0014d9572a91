//! Noise samples for one chunk, as plain values. The floating-point noise
//! fields themselves (fractal height, biome temperature, the three cave
//! fields, per-ore densities, scatter fields) cannot be verified, so the
//! sampler thresholds them outside the library and hands in one grid of
//! plain booleans or integers per field; every rule that reads them — cave
//! gating and bedrock protection, ore depth bands and priority, the fill
//! table, decoration placement — is verified here and in the generator.

use vstd::prelude::*;

use crate::block::BlockType;
use crate::chunk::CHUNK_VOLUME;

verus! {

/// Sea level: water fills open space at or below this world height.
pub const SEA_LEVEL: i32 = 63;

/// Cells per horizontal chunk slice: one entry per (x, z) column.
pub const CHUNK_AREA: usize = 256;

/// The linear index of a column in a per-column grid.
pub open spec fn spec_col(x: int, z: int) -> int {
    z * 16 + x
}

/// Noise sampled over one chunk's cells and columns, already thresholded to
/// plain values. Per-column grids are indexed `z*16 + x`; per-cell grids use
/// the chunk's own y-major linearization.
pub struct TerrainSamples {
    /// Terrain height per column, in world cells.
    pub height: Vec<i32>,
    /// Biome per column: true for desert, false for plains.
    pub desert: Vec<bool>,
    /// Cheese cave field above its carving threshold, per cell.
    pub cheese: Vec<bool>,
    /// Spaghetti cave pair below its combined threshold, per cell.
    pub spaghetti: Vec<bool>,
    /// Noodle cave pair below its combined threshold, per cell.
    pub noodle: Vec<bool>,
    /// Gravel patch field above its threshold, per cell.
    pub gravel: Vec<bool>,
    /// Diamond ore density above its depth-weighted threshold, per cell.
    pub ore_diamond: Vec<bool>,
    /// Gold ore density above its depth-weighted threshold, per cell.
    pub ore_gold: Vec<bool>,
    /// Iron ore density above its depth-weighted threshold, per cell.
    pub ore_iron: Vec<bool>,
    /// Coal ore density above its depth-weighted threshold, per cell.
    pub ore_coal: Vec<bool>,
    /// Clay patch field above its threshold, per column.
    pub clay: Vec<bool>,
    /// Tall-grass scatter field above its threshold, per column.
    pub grass: Vec<bool>,
    /// Tree placement: the column's 7x7 grid cell passed the density gate.
    pub tree_gate: Vec<bool>,
    /// Tree placement: the grid cell's noise roll, scaled to an integer;
    /// selects the trunk height.
    pub tree_roll: Vec<i32>,
    /// Tree variety per column: true grows birch, false grows oak.
    pub birch: Vec<bool>,
}

/// A sample set is well formed when every grid has one entry per column or
/// per cell.
pub open spec fn samples_wf(s: TerrainSamples) -> bool {
    &&& s.height@.len() == CHUNK_AREA
    &&& s.desert@.len() == CHUNK_AREA
    &&& s.cheese@.len() == CHUNK_VOLUME
    &&& s.spaghetti@.len() == CHUNK_VOLUME
    &&& s.noodle@.len() == CHUNK_VOLUME
    &&& s.gravel@.len() == CHUNK_VOLUME
    &&& s.ore_diamond@.len() == CHUNK_VOLUME
    &&& s.ore_gold@.len() == CHUNK_VOLUME
    &&& s.ore_iron@.len() == CHUNK_VOLUME
    &&& s.ore_coal@.len() == CHUNK_VOLUME
    &&& s.clay@.len() == CHUNK_AREA
    &&& s.grass@.len() == CHUNK_AREA
    &&& s.tree_gate@.len() == CHUNK_AREA
    &&& s.tree_roll@.len() == CHUNK_AREA
    &&& s.birch@.len() == CHUNK_AREA
}

impl TerrainSamples {
    /// Check every grid's length, so unverified callers can validate a
    /// sample set before generation.
    pub fn valid(&self) -> (r: bool)
        ensures
            r == samples_wf(*self),
    {
        self.height.len() == CHUNK_AREA && self.desert.len() == CHUNK_AREA
            && self.cheese.len() == CHUNK_VOLUME && self.spaghetti.len() == CHUNK_VOLUME
            && self.noodle.len() == CHUNK_VOLUME && self.gravel.len() == CHUNK_VOLUME
            && self.ore_diamond.len() == CHUNK_VOLUME && self.ore_gold.len() == CHUNK_VOLUME
            && self.ore_iron.len() == CHUNK_VOLUME && self.ore_coal.len() == CHUNK_VOLUME
            && self.clay.len() == CHUNK_AREA && self.grass.len() == CHUNK_AREA
            && self.tree_gate.len() == CHUNK_AREA && self.tree_roll.len() == CHUNK_AREA
            && self.birch.len() == CHUNK_AREA
    }
}

/// The cave predicate over one cell's three sampled cave fields. Bedrock
/// protection: never a cave at world height zero or below. Cheese chambers
/// are only permitted at least 4 cells below the surface; spaghetti and
/// noodle tunnels reach the surface itself.
pub open spec fn spec_is_cave(
    cheese: bool,
    spaghetti: bool,
    noodle: bool,
    wy: int,
    surface: int,
) -> bool {
    wy > 0 && ((wy <= surface - 4 && cheese) || (wy <= surface && spaghetti) || (wy <= surface
        && noodle))
}

/// Decide whether a cell is carved out as a cave, from its sampled cave
/// fields, its world height and its column's terrain height.
pub fn is_cave(cheese: bool, spaghetti: bool, noodle: bool, wy: i32, surface: i32) -> (r: bool)
    ensures
        r == spec_is_cave(cheese, spaghetti, noodle, wy as int, surface as int),
{
    if wy <= 0 {
        return false;
    }
    let wy_w = wy as i64;
    let surface_w = surface as i64;
    if wy_w <= surface_w - 4 && cheese {
        return true;
    }
    if wy_w <= surface_w && spaghetti {
        return true;
    }
    if wy_w <= surface_w && noodle {
        return true;
    }
    false
}

/// Cave bedrock protection: whatever the noise fields and the surface
/// height say, no cell at world height zero or below is ever a cave.
pub proof fn lemma_cave_bedrock_protection(
    cheese: bool,
    spaghetti: bool,
    noodle: bool,
    wy: int,
    surface: int,
)
    requires
        wy <= 0,
    ensures
        !spec_is_cave(cheese, spaghetti, noodle, wy, surface),
{
}

/// One cell's thresholded ore density samples, in priority order.
#[derive(Debug, Clone, Copy, PartialEq, Eq, Structural)]
pub struct OreSamples {
    pub diamond: bool,
    pub gold: bool,
    pub iron: bool,
    pub coal: bool,
}

/// The ore that replaces stone at a cell, if any: each ore is confined to
/// its depth band (the triangular weight is zero at and beyond the band
/// edges), and the first match in the fixed priority order
/// diamond, gold, iron, coal wins.
pub open spec fn spec_determine_ore(o: OreSamples, wy: int) -> Option<BlockType> {
    if 5 < wy < 16 && o.diamond {
        Some(BlockType::DiamondOre)
    } else if 5 < wy < 30 && o.gold {
        Some(BlockType::GoldOre)
    } else if 5 < wy < 54 && o.iron {
        Some(BlockType::IronOre)
    } else if 5 < wy < 95 && o.coal {
        Some(BlockType::CoalOre)
    } else {
        None
    }
}

/// Decide which ore, if any, replaces stone at a cell.
pub fn determine_ore(o: OreSamples, wy: i32) -> (r: Option<BlockType>)
    ensures
        r == spec_determine_ore(o, wy as int),
{
    if 5 < wy && wy < 16 && o.diamond {
        Some(BlockType::DiamondOre)
    } else if 5 < wy && wy < 30 && o.gold {
        Some(BlockType::GoldOre)
    } else if 5 < wy && wy < 54 && o.iron {
        Some(BlockType::IronOre)
    } else if 5 < wy && wy < 95 && o.coal {
        Some(BlockType::CoalOre)
    } else {
        None
    }
}

/// Ore depth bounds: whatever the density samples say, diamond never lies
/// outside world heights [5, 16], gold outside [5, 30], iron outside
/// [5, 54], and coal outside [5, 95].
pub proof fn lemma_ore_depth_bounds(o: OreSamples, wy: int)
    ensures
        spec_determine_ore(o, wy) == Some(BlockType::DiamondOre) ==> 5 <= wy <= 16,
        spec_determine_ore(o, wy) == Some(BlockType::GoldOre) ==> 5 <= wy <= 30,
        spec_determine_ore(o, wy) == Some(BlockType::IronOre) ==> 5 <= wy <= 54,
        spec_determine_ore(o, wy) == Some(BlockType::CoalOre) ==> 5 <= wy <= 95,
        spec_determine_ore(o, wy) is Some ==> 5 < wy < 95,
{
}

} // verus!
