//! The block-type vocabulary: a fixed table of small-integer ids shared by
//! chunk storage, generation and meshing, with the per-block predicates the
//! mesher consumes.

use vstd::prelude::*;

verus! {

/// One labeled cell of the voxel grid. Ids are stable: `id` and `from_id`
/// fix the on-disk byte for each variant, and unknown bytes decode to `Air`.
#[derive(Debug, Clone, Copy, PartialEq, Eq, Structural, Hash)]
pub enum BlockType {
    Air,
    Stone,
    Dirt,
    Grass,
    Cobblestone,
    Planks,
    Sand,
    Gravel,
    OakLog,
    OakLeaves,
    Glass,
    CoalOre,
    IronOre,
    GoldOre,
    DiamondOre,
    Bedrock,
    Water,
    CraftingTable,
    Furnace,
    Torch,
    Snow,
    Clay,
    Sandstone,
    BirchLog,
    BirchLeaves,
    TallGrass,
    Chest,
    Bed,
    DoorBottom,
    DoorTop,
    DoorBottomOpen,
    DoorTopOpen,
    OakSapling,
    BirchSapling,
    Farmland,
    WheatStage0,
    WheatStage1,
    WheatStage2,
    WheatStage3,
}

/// The block a byte stands for; bytes outside the table mean `Air`.
pub open spec fn spec_from_id(id: u8) -> BlockType {
    match id {
        0u8 => BlockType::Air,
        1u8 => BlockType::Stone,
        2u8 => BlockType::Dirt,
        3u8 => BlockType::Grass,
        4u8 => BlockType::Cobblestone,
        5u8 => BlockType::Planks,
        6u8 => BlockType::Sand,
        7u8 => BlockType::Gravel,
        8u8 => BlockType::OakLog,
        9u8 => BlockType::OakLeaves,
        10u8 => BlockType::Glass,
        11u8 => BlockType::CoalOre,
        12u8 => BlockType::IronOre,
        13u8 => BlockType::GoldOre,
        14u8 => BlockType::DiamondOre,
        15u8 => BlockType::Bedrock,
        16u8 => BlockType::Water,
        17u8 => BlockType::CraftingTable,
        18u8 => BlockType::Furnace,
        19u8 => BlockType::Torch,
        20u8 => BlockType::Snow,
        21u8 => BlockType::Clay,
        22u8 => BlockType::Sandstone,
        23u8 => BlockType::BirchLog,
        24u8 => BlockType::BirchLeaves,
        25u8 => BlockType::TallGrass,
        26u8 => BlockType::Chest,
        27u8 => BlockType::Bed,
        28u8 => BlockType::DoorBottom,
        29u8 => BlockType::DoorTop,
        30u8 => BlockType::DoorBottomOpen,
        31u8 => BlockType::DoorTopOpen,
        32u8 => BlockType::OakSapling,
        33u8 => BlockType::BirchSapling,
        34u8 => BlockType::Farmland,
        35u8 => BlockType::WheatStage0,
        36u8 => BlockType::WheatStage1,
        37u8 => BlockType::WheatStage2,
        38u8 => BlockType::WheatStage3,
        _ => BlockType::Air,
    }
}

/// The byte a block is stored as; inverse of `spec_from_id` on the table.
pub open spec fn spec_id(b: BlockType) -> u8 {
    match b {
        BlockType::Air => 0u8,
        BlockType::Stone => 1u8,
        BlockType::Dirt => 2u8,
        BlockType::Grass => 3u8,
        BlockType::Cobblestone => 4u8,
        BlockType::Planks => 5u8,
        BlockType::Sand => 6u8,
        BlockType::Gravel => 7u8,
        BlockType::OakLog => 8u8,
        BlockType::OakLeaves => 9u8,
        BlockType::Glass => 10u8,
        BlockType::CoalOre => 11u8,
        BlockType::IronOre => 12u8,
        BlockType::GoldOre => 13u8,
        BlockType::DiamondOre => 14u8,
        BlockType::Bedrock => 15u8,
        BlockType::Water => 16u8,
        BlockType::CraftingTable => 17u8,
        BlockType::Furnace => 18u8,
        BlockType::Torch => 19u8,
        BlockType::Snow => 20u8,
        BlockType::Clay => 21u8,
        BlockType::Sandstone => 22u8,
        BlockType::BirchLog => 23u8,
        BlockType::BirchLeaves => 24u8,
        BlockType::TallGrass => 25u8,
        BlockType::Chest => 26u8,
        BlockType::Bed => 27u8,
        BlockType::DoorBottom => 28u8,
        BlockType::DoorTop => 29u8,
        BlockType::DoorBottomOpen => 30u8,
        BlockType::DoorTopOpen => 31u8,
        BlockType::OakSapling => 32u8,
        BlockType::BirchSapling => 33u8,
        BlockType::Farmland => 34u8,
        BlockType::WheatStage0 => 35u8,
        BlockType::WheatStage1 => 36u8,
        BlockType::WheatStage2 => 37u8,
        BlockType::WheatStage3 => 38u8,
    }
}

impl BlockType {
    /// Decode a stored byte. Unknown ids degrade to `Air`, never an error.
    pub fn from_id(id: u8) -> (r: Self)
        ensures
            r == spec_from_id(id),
    {
        match id {
            0u8 => Self::Air,
            1u8 => Self::Stone,
            2u8 => Self::Dirt,
            3u8 => Self::Grass,
            4u8 => Self::Cobblestone,
            5u8 => Self::Planks,
            6u8 => Self::Sand,
            7u8 => Self::Gravel,
            8u8 => Self::OakLog,
            9u8 => Self::OakLeaves,
            10u8 => Self::Glass,
            11u8 => Self::CoalOre,
            12u8 => Self::IronOre,
            13u8 => Self::GoldOre,
            14u8 => Self::DiamondOre,
            15u8 => Self::Bedrock,
            16u8 => Self::Water,
            17u8 => Self::CraftingTable,
            18u8 => Self::Furnace,
            19u8 => Self::Torch,
            20u8 => Self::Snow,
            21u8 => Self::Clay,
            22u8 => Self::Sandstone,
            23u8 => Self::BirchLog,
            24u8 => Self::BirchLeaves,
            25u8 => Self::TallGrass,
            26u8 => Self::Chest,
            27u8 => Self::Bed,
            28u8 => Self::DoorBottom,
            29u8 => Self::DoorTop,
            30u8 => Self::DoorBottomOpen,
            31u8 => Self::DoorTopOpen,
            32u8 => Self::OakSapling,
            33u8 => Self::BirchSapling,
            34u8 => Self::Farmland,
            35u8 => Self::WheatStage0,
            36u8 => Self::WheatStage1,
            37u8 => Self::WheatStage2,
            38u8 => Self::WheatStage3,
            _ => Self::Air,
        }
    }

    /// The byte this block is stored as.
    pub fn id(self) -> (r: u8)
        ensures
            r == spec_id(self),
    {
        match self {
            Self::Air => 0,
            Self::Stone => 1,
            Self::Dirt => 2,
            Self::Grass => 3,
            Self::Cobblestone => 4,
            Self::Planks => 5,
            Self::Sand => 6,
            Self::Gravel => 7,
            Self::OakLog => 8,
            Self::OakLeaves => 9,
            Self::Glass => 10,
            Self::CoalOre => 11,
            Self::IronOre => 12,
            Self::GoldOre => 13,
            Self::DiamondOre => 14,
            Self::Bedrock => 15,
            Self::Water => 16,
            Self::CraftingTable => 17,
            Self::Furnace => 18,
            Self::Torch => 19,
            Self::Snow => 20,
            Self::Clay => 21,
            Self::Sandstone => 22,
            Self::BirchLog => 23,
            Self::BirchLeaves => 24,
            Self::TallGrass => 25,
            Self::Chest => 26,
            Self::Bed => 27,
            Self::DoorBottom => 28,
            Self::DoorTop => 29,
            Self::DoorBottomOpen => 30,
            Self::DoorTopOpen => 31,
            Self::OakSapling => 32,
            Self::BirchSapling => 33,
            Self::Farmland => 34,
            Self::WheatStage0 => 35,
            Self::WheatStage1 => 36,
            Self::WheatStage2 => 37,
            Self::WheatStage3 => 38,
        }
    }
}

/// Encoding then decoding an id is the identity on the block table.
pub proof fn lemma_id_roundtrip(b: BlockType)
    ensures
        spec_from_id(spec_id(b)) == b,
{
}

/// Blocks rendered as full cubes that block movement.
pub open spec fn spec_is_solid(b: BlockType) -> bool {
    b is Stone || b is Dirt || b is Grass || b is Cobblestone || b is Planks || b is Sand
        || b is Gravel || b is OakLog || b is OakLeaves || b is Glass || b is CoalOre
        || b is IronOre || b is GoldOre || b is DiamondOre || b is Bedrock || b is CraftingTable
        || b is Furnace || b is Snow || b is Clay || b is Sandstone || b is BirchLog
        || b is BirchLeaves || b is Chest || b is Bed || b is DoorBottom || b is DoorTop
        || b is Farmland
}

/// Blocks a neighboring face can be seen through.
pub open spec fn spec_is_transparent(b: BlockType) -> bool {
    b is Air || b is Water || b is Glass || b is OakLeaves || b is BirchLeaves || b is Torch
        || b is TallGrass || b is DoorBottom || b is DoorTop || b is DoorBottomOpen
        || b is DoorTopOpen || b is OakSapling || b is BirchSapling || b is WheatStage0
        || b is WheatStage1 || b is WheatStage2 || b is WheatStage3
}

/// Decorations drawn as cross billboards instead of cube geometry.
pub open spec fn spec_is_non_cube(b: BlockType) -> bool {
    b is Torch || b is TallGrass || b is OakSapling || b is BirchSapling || b is WheatStage0
        || b is WheatStage1 || b is WheatStage2 || b is WheatStage3
}

impl BlockType {
    /// True for blocks rendered as full cubes that block movement.
    pub fn is_solid(self) -> (r: bool)
        ensures
            r == spec_is_solid(self),
    {
        match self {
            Self::Stone | Self::Dirt | Self::Grass | Self::Cobblestone | Self::Planks
            | Self::Sand | Self::Gravel | Self::OakLog | Self::OakLeaves | Self::Glass
            | Self::CoalOre | Self::IronOre | Self::GoldOre | Self::DiamondOre | Self::Bedrock
            | Self::CraftingTable | Self::Furnace | Self::Snow | Self::Clay | Self::Sandstone
            | Self::BirchLog | Self::BirchLeaves | Self::Chest | Self::Bed | Self::DoorBottom
            | Self::DoorTop | Self::Farmland => true,
            _ => false,
        }
    }

    /// True for blocks a neighboring face can be seen through.
    pub fn is_transparent(self) -> (r: bool)
        ensures
            r == spec_is_transparent(self),
    {
        match self {
            Self::Air | Self::Water | Self::Glass | Self::OakLeaves | Self::BirchLeaves
            | Self::Torch | Self::TallGrass | Self::DoorBottom | Self::DoorTop
            | Self::DoorBottomOpen | Self::DoorTopOpen | Self::OakSapling | Self::BirchSapling
            | Self::WheatStage0 | Self::WheatStage1 | Self::WheatStage2 | Self::WheatStage3 => {
                true
            },
            _ => false,
        }
    }

    /// True for decorations drawn as cross billboards, never as cubes.
    pub fn is_non_cube(self) -> (r: bool)
        ensures
            r == spec_is_non_cube(self),
    {
        match self {
            Self::Torch | Self::TallGrass | Self::OakSapling | Self::BirchSapling
            | Self::WheatStage0 | Self::WheatStage1 | Self::WheatStage2 | Self::WheatStage3 => {
                true
            },
            _ => false,
        }
    }

    /// True only for the inert air value.
    pub fn is_air(self) -> (r: bool)
        ensures
            r == (self is Air),
    {
        match self {
            Self::Air => true,
            _ => false,
        }
    }

    /// True only for water.
    pub fn is_liquid(self) -> (r: bool)
        ensures
            r == (self is Water),
    {
        match self {
            Self::Water => true,
            _ => false,
        }
    }

    /// True if a raycast may target this block: everything but air and water.
    pub fn is_targetable(self) -> (r: bool)
        ensures
            r == (!(self is Air) && !(self is Water)),
    {
        match self {
            Self::Air | Self::Water => false,
            _ => true,
        }
    }

    /// The human-readable name shown in tooltips; empty only for air.
    pub fn display_name(self) -> (r: &'static str)
        ensures
            r@ == spec_display_name(self),
    {
        match self {
            Self::Air => "",
            Self::Stone => "Stone",
            Self::Dirt => "Dirt",
            Self::Grass => "Grass Block",
            Self::Cobblestone => "Cobblestone",
            Self::Planks => "Oak Planks",
            Self::Sand => "Sand",
            Self::Gravel => "Gravel",
            Self::OakLog => "Oak Log",
            Self::OakLeaves => "Oak Leaves",
            Self::Glass => "Glass",
            Self::CoalOre => "Coal Ore",
            Self::IronOre => "Iron Ore",
            Self::GoldOre => "Gold Ore",
            Self::DiamondOre => "Diamond Ore",
            Self::Bedrock => "Bedrock",
            Self::Water => "Water",
            Self::CraftingTable => "Crafting Table",
            Self::Furnace => "Furnace",
            Self::Torch => "Torch",
            Self::Snow => "Snow",
            Self::Clay => "Clay",
            Self::Sandstone => "Sandstone",
            Self::BirchLog => "Birch Log",
            Self::BirchLeaves => "Birch Leaves",
            Self::TallGrass => "Tall Grass",
            Self::Chest => "Chest",
            Self::Bed => "Bed",
            Self::DoorBottom | Self::DoorBottomOpen => "Oak Door",
            Self::DoorTop | Self::DoorTopOpen => "Oak Door",
            Self::OakSapling => "Oak Sapling",
            Self::BirchSapling => "Birch Sapling",
            Self::Farmland => "Farmland",
            Self::WheatStage0 | Self::WheatStage1 | Self::WheatStage2 | Self::WheatStage3 => {
                "Wheat"
            },
        }
    }

    /// The weakest pickaxe tier that still collects this block's drops;
    /// `None` when any tool or the bare hand works.
    pub fn required_pickaxe_tier(self) -> (r: Option<crate::item::ToolTier>)
        ensures
            r == spec_required_pickaxe_tier(self),
    {
        match self {
            Self::Stone | Self::Cobblestone | Self::Sandstone | Self::Furnace | Self::CoalOre => {
                Some(crate::item::ToolTier::Wooden)
            },
            Self::IronOre => Some(crate::item::ToolTier::Stone),
            Self::GoldOre | Self::DiamondOre => Some(crate::item::ToolTier::Iron),
            _ => None,
        }
    }
}

/// The human-readable block name; empty only for air.
pub open spec fn spec_display_name(b: BlockType) -> Seq<char> {
    match b {
        BlockType::Air => ""@,
        BlockType::Stone => "Stone"@,
        BlockType::Dirt => "Dirt"@,
        BlockType::Grass => "Grass Block"@,
        BlockType::Cobblestone => "Cobblestone"@,
        BlockType::Planks => "Oak Planks"@,
        BlockType::Sand => "Sand"@,
        BlockType::Gravel => "Gravel"@,
        BlockType::OakLog => "Oak Log"@,
        BlockType::OakLeaves => "Oak Leaves"@,
        BlockType::Glass => "Glass"@,
        BlockType::CoalOre => "Coal Ore"@,
        BlockType::IronOre => "Iron Ore"@,
        BlockType::GoldOre => "Gold Ore"@,
        BlockType::DiamondOre => "Diamond Ore"@,
        BlockType::Bedrock => "Bedrock"@,
        BlockType::Water => "Water"@,
        BlockType::CraftingTable => "Crafting Table"@,
        BlockType::Furnace => "Furnace"@,
        BlockType::Torch => "Torch"@,
        BlockType::Snow => "Snow"@,
        BlockType::Clay => "Clay"@,
        BlockType::Sandstone => "Sandstone"@,
        BlockType::BirchLog => "Birch Log"@,
        BlockType::BirchLeaves => "Birch Leaves"@,
        BlockType::TallGrass => "Tall Grass"@,
        BlockType::Chest => "Chest"@,
        BlockType::Bed => "Bed"@,
        BlockType::DoorBottom | BlockType::DoorBottomOpen => "Oak Door"@,
        BlockType::DoorTop | BlockType::DoorTopOpen => "Oak Door"@,
        BlockType::OakSapling => "Oak Sapling"@,
        BlockType::BirchSapling => "Birch Sapling"@,
        BlockType::Farmland => "Farmland"@,
        BlockType::WheatStage0 | BlockType::WheatStage1 | BlockType::WheatStage2
        | BlockType::WheatStage3 => "Wheat"@,
    }
}

/// The weakest pickaxe tier that still collects a block's drops.
pub open spec fn spec_required_pickaxe_tier(b: BlockType) -> Option<crate::item::ToolTier> {
    match b {
        BlockType::Stone | BlockType::Cobblestone | BlockType::Sandstone | BlockType::Furnace
        | BlockType::CoalOre => Some(crate::item::ToolTier::Wooden),
        BlockType::IronOre => Some(crate::item::ToolTier::Stone),
        BlockType::GoldOre | BlockType::DiamondOre => Some(crate::item::ToolTier::Iron),
        _ => None,
    }
}

/// One of the six cube face directions, for face lookups and meshing.
#[derive(Debug, Clone, Copy, PartialEq, Eq, Structural, Hash)]
pub enum Face {
    Top,
    Bottom,
    North,
    South,
    East,
    West,
}

impl Face {
    /// The outward unit normal of the face, as integer components (x, y, z).
    pub fn normal(self) -> (r: (i32, i32, i32))
        ensures
            r == spec_face_normal(self),
    {
        match self {
            Self::Top => (0, 1, 0),
            Self::Bottom => (0, -1, 0),
            Self::North => (0, 0, -1),
            Self::South => (0, 0, 1),
            Self::East => (1, 0, 0),
            Self::West => (-1, 0, 0),
        }
    }
}

/// The outward unit normal of a face, as integer components (x, y, z).
pub open spec fn spec_face_normal(f: Face) -> (i32, i32, i32) {
    match f {
        Face::Top => (0i32, 1i32, 0i32),
        Face::Bottom => (0i32, -1i32, 0i32),
        Face::North => (0i32, 0i32, -1i32),
        Face::South => (0i32, 0i32, 1i32),
        Face::East => (1i32, 0i32, 0i32),
        Face::West => (-1i32, 0i32, 0i32),
    }
}

} // verus!
