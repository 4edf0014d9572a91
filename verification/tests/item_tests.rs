use voxelcore::item::{ToolKind, ToolTier};
use voxelcore::{BlockType, Item};

#[test]
fn tools_and_armor_do_not_stack() {
    assert_eq!(Item::WoodenPickaxe.max_stack(), 1);
    assert_eq!(Item::DiamondSword.max_stack(), 1);
    assert_eq!(Item::IronHelmet.max_stack(), 1);
    assert_eq!(Item::Stick.max_stack(), 64);
    assert_eq!(Item::Block(BlockType::Stone).max_stack(), 64);
}

#[test]
fn block_items_know_their_block() {
    let item = Item::Block(BlockType::Sand);
    assert!(item.is_block());
    assert_eq!(item.as_block(), Some(BlockType::Sand));
    assert!(!Item::Coal.is_block());
    assert_eq!(Item::Coal.as_block(), None);
}

#[test]
fn tool_classification() {
    assert!(Item::StonePickaxe.is_tool());
    assert_eq!(Item::StonePickaxe.tool_kind(), Some(ToolKind::Pickaxe));
    assert_eq!(Item::StonePickaxe.tool_tier(), Some(ToolTier::Stone));
    assert_eq!(Item::DiamondHoe.tool_kind(), Some(ToolKind::Hoe));
    assert_eq!(Item::DiamondHoe.tool_tier(), Some(ToolTier::Diamond));
    assert!(!Item::Bread.is_tool());
    assert_eq!(Item::Bread.tool_kind(), None);
}

#[test]
fn food_classification() {
    assert!(Item::Apple.is_food());
    assert!(Item::RottenFlesh.is_food());
    assert!(!Item::Stick.is_food());
    assert!(!Item::Block(BlockType::Stone).is_food());
}

#[test]
fn durability_tables() {
    assert_eq!(Item::WoodenPickaxe.max_durability(), 59);
    assert_eq!(Item::StoneAxe.max_durability(), 131);
    assert_eq!(Item::IronShovel.max_durability(), 250);
    assert_eq!(Item::DiamondSword.max_durability(), 1561);
    assert_eq!(Item::Stick.max_durability(), 0);
    assert_eq!(Item::LeatherHelmet.max_durability(), 55);
    assert_eq!(Item::DiamondChestplate.max_durability(), 528);
}

#[test]
fn armor_slots_and_points() {
    assert!(Item::IronChestplate.is_armor());
    assert_eq!(Item::IronChestplate.armor_slot(), Some(1));
    assert_eq!(Item::IronChestplate.armor_points(), 6);
    assert_eq!(Item::DiamondBoots.armor_slot(), Some(3));
    assert_eq!(Item::DiamondBoots.armor_points(), 3);
    assert!(!Item::WoodenSword.is_armor());
    assert_eq!(Item::WoodenSword.armor_points(), 0);
}

#[test]
fn item_display_names() {
    assert_eq!(Item::Stick.display_name(), "Stick");
    assert_eq!(Item::Block(BlockType::Stone).display_name(), "Stone");
    assert_eq!(Item::DiamondPickaxe.display_name(), "Diamond Pickaxe");
    assert_eq!(Item::Block(BlockType::Grass).display_name(), "Grass Block");
}

#[test]
fn tier_ranks_ascend() {
    assert!(ToolTier::Wooden.rank() < ToolTier::Stone.rank());
    assert!(ToolTier::Stone.rank() < ToolTier::Iron.rank());
    assert!(ToolTier::Iron.rank() < ToolTier::Gold.rank());
    assert!(ToolTier::Gold.rank() < ToolTier::Diamond.rank());
}
