//! The texture-atlas lookup: which 16x16-grid tile each block face samples.
//! Texture coordinates are measured in atlas-tile units (one unit is one
//! tile, a sixteenth of the texture per axis), so every coordinate the mesher
//! emits is an exact integer; renderers divide by the atlas width.

use vstd::prelude::*;

use crate::block::{BlockType, Face};

verus! {

/// Tiles per atlas row and column.
pub const ATLAS_TILES: u32 = 16;

/// The atlas tile index a block face samples.
pub open spec fn spec_texture_index(block: BlockType, face: Face) -> u32 {
    match block {
        BlockType::Stone => 0u32,
        BlockType::Dirt => 1u32,
        BlockType::Grass => match face {
            Face::Top => 2u32,
            Face::Bottom => 1u32,
            _ => 3u32,
        },
        BlockType::Cobblestone => 4u32,
        BlockType::Planks => 5u32,
        BlockType::Sand => 6u32,
        BlockType::Gravel => 7u32,
        BlockType::OakLog => match face {
            Face::Top | Face::Bottom => 8u32,
            _ => 9u32,
        },
        BlockType::OakLeaves => 10u32,
        BlockType::Glass => 11u32,
        BlockType::CoalOre => 12u32,
        BlockType::IronOre => 13u32,
        BlockType::GoldOre => 14u32,
        BlockType::DiamondOre => 15u32,
        BlockType::Bedrock => 16u32,
        BlockType::Water => 17u32,
        BlockType::CraftingTable => match face {
            Face::Top => 18u32,
            Face::Bottom => 5u32,
            _ => 19u32,
        },
        BlockType::Furnace => match face {
            Face::Top | Face::Bottom => 20u32,
            Face::North => 21u32,
            _ => 22u32,
        },
        BlockType::Snow => 23u32,
        BlockType::Clay => 24u32,
        BlockType::Sandstone => match face {
            Face::Top => 25u32,
            Face::Bottom => 26u32,
            _ => 27u32,
        },
        BlockType::BirchLog => match face {
            Face::Top | Face::Bottom => 28u32,
            _ => 29u32,
        },
        BlockType::BirchLeaves => 30u32,
        BlockType::Chest => match face {
            Face::Top => 33u32,
            Face::Bottom => 5u32,
            Face::North => 31u32,
            _ => 32u32,
        },
        BlockType::Bed => match face {
            Face::Top => 34u32,
            Face::Bottom => 5u32,
            _ => 35u32,
        },
        BlockType::DoorBottom | BlockType::DoorBottomOpen => 41u32,
        BlockType::DoorTop | BlockType::DoorTopOpen => 40u32,
        BlockType::OakSapling => 42u32,
        BlockType::BirchSapling => 43u32,
        BlockType::Farmland => match face {
            Face::Top => 44u32,
            _ => 1u32,
        },
        BlockType::WheatStage0 => 45u32,
        BlockType::WheatStage1 => 46u32,
        BlockType::WheatStage2 => 47u32,
        BlockType::WheatStage3 => 48u32,
        BlockType::Torch => 49u32,
        BlockType::TallGrass => 50u32,
        BlockType::Air => 0u32,
    }
}

/// The atlas tile index a block face samples: a position in the 16x16 grid,
/// row-major.
pub fn texture_index(block: BlockType, face: Face) -> (r: u32)
    ensures
        r == spec_texture_index(block, face),
{
    match block {
        BlockType::Stone => 0,
        BlockType::Dirt => 1,
        BlockType::Grass => match face {
            Face::Top => 2,
            Face::Bottom => 1,
            _ => 3,
        },
        BlockType::Cobblestone => 4,
        BlockType::Planks => 5,
        BlockType::Sand => 6,
        BlockType::Gravel => 7,
        BlockType::OakLog => match face {
            Face::Top | Face::Bottom => 8,
            _ => 9,
        },
        BlockType::OakLeaves => 10,
        BlockType::Glass => 11,
        BlockType::CoalOre => 12,
        BlockType::IronOre => 13,
        BlockType::GoldOre => 14,
        BlockType::DiamondOre => 15,
        BlockType::Bedrock => 16,
        BlockType::Water => 17,
        BlockType::CraftingTable => match face {
            Face::Top => 18,
            Face::Bottom => 5,
            _ => 19,
        },
        BlockType::Furnace => match face {
            Face::Top | Face::Bottom => 20,
            Face::North => 21,
            _ => 22,
        },
        BlockType::Snow => 23,
        BlockType::Clay => 24,
        BlockType::Sandstone => match face {
            Face::Top => 25,
            Face::Bottom => 26,
            _ => 27,
        },
        BlockType::BirchLog => match face {
            Face::Top | Face::Bottom => 28,
            _ => 29,
        },
        BlockType::BirchLeaves => 30,
        BlockType::Chest => match face {
            Face::Top => 33,
            Face::Bottom => 5,
            Face::North => 31,
            _ => 32,
        },
        BlockType::Bed => match face {
            Face::Top => 34,
            Face::Bottom => 5,
            _ => 35,
        },
        BlockType::DoorBottom | BlockType::DoorBottomOpen => 41,
        BlockType::DoorTop | BlockType::DoorTopOpen => 40,
        BlockType::OakSapling => 42,
        BlockType::BirchSapling => 43,
        BlockType::Farmland => match face {
            Face::Top => 44,
            _ => 1,
        },
        BlockType::WheatStage0 => 45,
        BlockType::WheatStage1 => 46,
        BlockType::WheatStage2 => 47,
        BlockType::WheatStage3 => 48,
        BlockType::Torch => 49,
        BlockType::TallGrass => 50,
        BlockType::Air => 0,
    }
}

/// The column and row of a tile index in the atlas grid; these are also the
/// tile's minimum texture coordinates in atlas-tile units.
pub fn tile_origin(tile_index: u32) -> (r: (u32, u32))
    ensures
        r.0 == tile_index % ATLAS_TILES,
        r.1 == tile_index / ATLAS_TILES,
{
    (tile_index % ATLAS_TILES, tile_index / ATLAS_TILES)
}

} // verus!
