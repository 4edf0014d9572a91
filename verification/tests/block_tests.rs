use voxelcore::BlockType;
use voxelcore::item::ToolTier;
use voxelcore::atlas::{texture_index, tile_origin};
use voxelcore::block::Face;

#[test]
fn solid_blocks_are_solid() {
    assert!(BlockType::Stone.is_solid());
    assert!(BlockType::Dirt.is_solid());
    assert!(BlockType::Cobblestone.is_solid());
    assert!(BlockType::Planks.is_solid());
    assert!(BlockType::Bedrock.is_solid());
    assert!(BlockType::OakLog.is_solid());
}

#[test]
fn non_solid_blocks() {
    assert!(!BlockType::Air.is_solid());
    assert!(!BlockType::Water.is_solid());
    assert!(!BlockType::Torch.is_solid());
    assert!(!BlockType::TallGrass.is_solid());
}

#[test]
fn transparent_blocks() {
    assert!(BlockType::Air.is_transparent());
    assert!(BlockType::Glass.is_transparent());
    assert!(BlockType::Water.is_transparent());
    assert!(BlockType::OakLeaves.is_transparent());
    assert!(BlockType::BirchLeaves.is_transparent());
    assert!(BlockType::Torch.is_transparent());
    assert!(BlockType::TallGrass.is_transparent());
}

#[test]
fn opaque_blocks_not_transparent() {
    assert!(!BlockType::Stone.is_transparent());
    assert!(!BlockType::Dirt.is_transparent());
    assert!(!BlockType::Bedrock.is_transparent());
}

#[test]
fn from_id_roundtrip() {
    for id in 0..=38u8 {
        let bt = BlockType::from_id(id);
        assert_eq!(bt.id(), id);
    }
}

#[test]
fn from_id_unknown_returns_air() {
    assert_eq!(BlockType::from_id(255), BlockType::Air);
    assert_eq!(BlockType::from_id(100), BlockType::Air);
    assert_eq!(BlockType::from_id(39), BlockType::Air);
}

#[test]
fn display_name_empty_for_air() {
    assert!(BlockType::Air.display_name().is_empty());
}

#[test]
fn display_name_not_empty_for_blocks() {
    assert!(!BlockType::Stone.display_name().is_empty());
    assert!(!BlockType::Dirt.display_name().is_empty());
    assert!(!BlockType::CraftingTable.display_name().is_empty());
}

#[test]
fn is_air_only_for_air() {
    assert!(BlockType::Air.is_air());
    assert!(!BlockType::Stone.is_air());
    assert!(!BlockType::Water.is_air());
}

#[test]
fn is_liquid_only_for_water() {
    assert!(BlockType::Water.is_liquid());
    assert!(!BlockType::Air.is_liquid());
    assert!(!BlockType::Stone.is_liquid());
}

#[test]
fn targetable_excludes_air_and_water() {
    assert!(!BlockType::Air.is_targetable());
    assert!(!BlockType::Water.is_targetable());
    assert!(BlockType::Stone.is_targetable());
    assert!(BlockType::Torch.is_targetable());
}

#[test]
fn pickaxe_tiers() {
    assert_eq!(BlockType::Stone.required_pickaxe_tier(), Some(ToolTier::Wooden));
    assert_eq!(BlockType::IronOre.required_pickaxe_tier(), Some(ToolTier::Stone));
    assert_eq!(BlockType::DiamondOre.required_pickaxe_tier(), Some(ToolTier::Iron));
    assert_eq!(BlockType::Dirt.required_pickaxe_tier(), None);
}

#[test]
fn atlas_texture_indices() {
    assert_eq!(texture_index(BlockType::Stone, Face::Top), 0);
    assert_eq!(texture_index(BlockType::Grass, Face::Top), 2);
    assert_eq!(texture_index(BlockType::Grass, Face::Bottom), 1);
    assert_eq!(texture_index(BlockType::Grass, Face::North), 3);
    assert_eq!(texture_index(BlockType::Furnace, Face::North), 21);
    assert_eq!(texture_index(BlockType::Torch, Face::South), 49);
    assert_eq!(tile_origin(0), (0, 0));
    assert_eq!(tile_origin(17), (1, 1));
    assert_eq!(tile_origin(50), (2, 3));
}
