//! The item vocabulary consumed by gameplay collaborators: blocks in item
//! form, materials, tools, food and armor, with their stacking, durability
//! and classification tables.

use vstd::prelude::*;

use crate::block::BlockType;

verus! {

/// An inventory item: a placeable block or one of the crafted goods.
#[derive(Debug, Clone, Copy, PartialEq, Eq, Structural, Hash)]
pub enum Item {
    Block(BlockType),
    Stick,
    Coal,
    IronIngot,
    GoldIngot,
    Diamond,
    WoodenPickaxe,
    WoodenAxe,
    WoodenShovel,
    WoodenSword,
    StonePickaxe,
    StoneAxe,
    StoneShovel,
    StoneSword,
    IronPickaxe,
    IronAxe,
    IronShovel,
    IronSword,
    DiamondPickaxe,
    DiamondAxe,
    DiamondShovel,
    DiamondSword,
    Apple,
    Bread,
    CookedPorkchop,
    RawPorkchop,
    RawBeef,
    CookedBeef,
    Leather,
    RawMutton,
    CookedMutton,
    Wool,
    RottenFlesh,
    Bone,
    WoodenHoe,
    StoneHoe,
    IronHoe,
    DiamondHoe,
    Seeds,
    Wheat,
    LeatherHelmet,
    LeatherChestplate,
    LeatherLeggings,
    LeatherBoots,
    IronHelmet,
    IronChestplate,
    IronLeggings,
    IronBoots,
    DiamondHelmet,
    DiamondChestplate,
    DiamondLeggings,
    DiamondBoots,
}

/// What a tool is used for.
#[derive(Debug, Clone, Copy, PartialEq, Eq, Structural, Hash)]
pub enum ToolKind {
    Pickaxe,
    Axe,
    Shovel,
    Sword,
    Hoe,
}

/// The material a tool is made of, from weakest to strongest.
#[derive(Debug, Clone, Copy, PartialEq, Eq, Structural, Hash)]
pub enum ToolTier {
    Wooden,
    Stone,
    Iron,
    Gold,
    Diamond,
}

impl ToolTier {
    /// The tier's rank: wooden is weakest, diamond strongest.
    pub fn rank(self) -> (r: u8)
        ensures
            r == spec_tier_rank(self),
    {
        match self {
            Self::Wooden => 0,
            Self::Stone => 1,
            Self::Iron => 2,
            Self::Gold => 3,
            Self::Diamond => 4,
        }
    }
}

/// The ordering rank of a tool tier.
pub open spec fn spec_tier_rank(t: ToolTier) -> u8 {
    match t {
        ToolTier::Wooden => 0u8,
        ToolTier::Stone => 1u8,
        ToolTier::Iron => 2u8,
        ToolTier::Gold => 3u8,
        ToolTier::Diamond => 4u8,
    }
}

/// The tool class of an item, if it is a tool.
pub open spec fn spec_tool_kind(i: Item) -> Option<ToolKind> {
    match i {
        Item::WoodenPickaxe | Item::StonePickaxe | Item::IronPickaxe | Item::DiamondPickaxe => {
            Some(ToolKind::Pickaxe)
        },
        Item::WoodenAxe | Item::StoneAxe | Item::IronAxe | Item::DiamondAxe => Some(ToolKind::Axe),
        Item::WoodenShovel | Item::StoneShovel | Item::IronShovel | Item::DiamondShovel => {
            Some(ToolKind::Shovel)
        },
        Item::WoodenSword | Item::StoneSword | Item::IronSword | Item::DiamondSword => {
            Some(ToolKind::Sword)
        },
        Item::WoodenHoe | Item::StoneHoe | Item::IronHoe | Item::DiamondHoe => Some(ToolKind::Hoe),
        _ => None,
    }
}

/// The material tier of an item, if it is a tool.
pub open spec fn spec_tool_tier(i: Item) -> Option<ToolTier> {
    match i {
        Item::WoodenPickaxe | Item::WoodenAxe | Item::WoodenShovel | Item::WoodenSword
        | Item::WoodenHoe => Some(ToolTier::Wooden),
        Item::StonePickaxe | Item::StoneAxe | Item::StoneShovel | Item::StoneSword
        | Item::StoneHoe => Some(ToolTier::Stone),
        Item::IronPickaxe | Item::IronAxe | Item::IronShovel | Item::IronSword | Item::IronHoe => {
            Some(ToolTier::Iron)
        },
        Item::DiamondPickaxe | Item::DiamondAxe | Item::DiamondShovel | Item::DiamondSword
        | Item::DiamondHoe => Some(ToolTier::Diamond),
        _ => None,
    }
}

/// The items that restore food when eaten.
pub open spec fn spec_is_food(i: Item) -> bool {
    i is Apple || i is Bread || i is CookedPorkchop || i is RawPorkchop || i is RawBeef
        || i is CookedBeef || i is RawMutton || i is CookedMutton || i is RottenFlesh
}

/// The armor slot an item occupies, if it is armor:
/// 0 helmet, 1 chestplate, 2 leggings, 3 boots.
pub open spec fn spec_armor_slot(i: Item) -> Option<usize> {
    match i {
        Item::LeatherHelmet | Item::IronHelmet | Item::DiamondHelmet => Some(0usize),
        Item::LeatherChestplate | Item::IronChestplate | Item::DiamondChestplate => Some(1usize),
        Item::LeatherLeggings | Item::IronLeggings | Item::DiamondLeggings => Some(2usize),
        Item::LeatherBoots | Item::IronBoots | Item::DiamondBoots => Some(3usize),
        _ => None,
    }
}

/// The defense points of an armor piece; zero for anything else.
pub open spec fn spec_armor_points(i: Item) -> u8 {
    match i {
        Item::LeatherHelmet => 1u8,
        Item::LeatherChestplate => 3u8,
        Item::LeatherLeggings => 2u8,
        Item::LeatherBoots => 1u8,
        Item::IronHelmet => 2u8,
        Item::IronChestplate => 6u8,
        Item::IronLeggings => 5u8,
        Item::IronBoots => 2u8,
        Item::DiamondHelmet => 3u8,
        Item::DiamondChestplate => 8u8,
        Item::DiamondLeggings => 6u8,
        Item::DiamondBoots => 3u8,
        _ => 0u8,
    }
}

/// The durability of an armor piece, if the item is armor.
pub open spec fn spec_armor_durability(i: Item) -> Option<u16> {
    match i {
        Item::LeatherHelmet => Some(55u16),
        Item::LeatherChestplate => Some(80u16),
        Item::LeatherLeggings => Some(75u16),
        Item::LeatherBoots => Some(65u16),
        Item::IronHelmet => Some(165u16),
        Item::IronChestplate => Some(240u16),
        Item::IronLeggings => Some(225u16),
        Item::IronBoots => Some(195u16),
        Item::DiamondHelmet => Some(363u16),
        Item::DiamondChestplate => Some(528u16),
        Item::DiamondLeggings => Some(495u16),
        Item::DiamondBoots => Some(429u16),
        _ => None,
    }
}

/// The human-readable item name; block items use their block's name.
pub open spec fn spec_item_display_name(i: Item) -> Seq<char> {
    match i {
        Item::Block(bt) => crate::block::spec_display_name(bt),
        Item::Stick => "Stick"@,
        Item::Coal => "Coal"@,
        Item::IronIngot => "Iron Ingot"@,
        Item::GoldIngot => "Gold Ingot"@,
        Item::Diamond => "Diamond"@,
        Item::WoodenPickaxe => "Wooden Pickaxe"@,
        Item::WoodenAxe => "Wooden Axe"@,
        Item::WoodenShovel => "Wooden Shovel"@,
        Item::WoodenSword => "Wooden Sword"@,
        Item::StonePickaxe => "Stone Pickaxe"@,
        Item::StoneAxe => "Stone Axe"@,
        Item::StoneShovel => "Stone Shovel"@,
        Item::StoneSword => "Stone Sword"@,
        Item::IronPickaxe => "Iron Pickaxe"@,
        Item::IronAxe => "Iron Axe"@,
        Item::IronShovel => "Iron Shovel"@,
        Item::IronSword => "Iron Sword"@,
        Item::DiamondPickaxe => "Diamond Pickaxe"@,
        Item::DiamondAxe => "Diamond Axe"@,
        Item::DiamondShovel => "Diamond Shovel"@,
        Item::DiamondSword => "Diamond Sword"@,
        Item::Apple => "Apple"@,
        Item::Bread => "Bread"@,
        Item::CookedPorkchop => "Cooked Porkchop"@,
        Item::RawPorkchop => "Raw Porkchop"@,
        Item::RawBeef => "Raw Beef"@,
        Item::CookedBeef => "Cooked Beef"@,
        Item::Leather => "Leather"@,
        Item::RawMutton => "Raw Mutton"@,
        Item::CookedMutton => "Cooked Mutton"@,
        Item::Wool => "Wool"@,
        Item::RottenFlesh => "Rotten Flesh"@,
        Item::Bone => "Bone"@,
        Item::WoodenHoe => "Wooden Hoe"@,
        Item::StoneHoe => "Stone Hoe"@,
        Item::IronHoe => "Iron Hoe"@,
        Item::DiamondHoe => "Diamond Hoe"@,
        Item::Seeds => "Seeds"@,
        Item::Wheat => "Wheat"@,
        Item::LeatherHelmet => "Leather Helmet"@,
        Item::LeatherChestplate => "Leather Chestplate"@,
        Item::LeatherLeggings => "Leather Leggings"@,
        Item::LeatherBoots => "Leather Boots"@,
        Item::IronHelmet => "Iron Helmet"@,
        Item::IronChestplate => "Iron Chestplate"@,
        Item::IronLeggings => "Iron Leggings"@,
        Item::IronBoots => "Iron Boots"@,
        Item::DiamondHelmet => "Diamond Helmet"@,
        Item::DiamondChestplate => "Diamond Chestplate"@,
        Item::DiamondLeggings => "Diamond Leggings"@,
        Item::DiamondBoots => "Diamond Boots"@,
    }
}

impl Item {
    /// How many of this item stack in one slot: tools and armor do not
    /// stack, everything else stacks to 64.
    pub fn max_stack(self) -> (r: u8)
        ensures
            (spec_tool_kind(self) is Some || spec_armor_slot(self) is Some) ==> r == 1,
            spec_tool_kind(self) is None && spec_armor_slot(self) is None ==> r == 64,
    {
        match self {
            Self::WoodenPickaxe | Self::WoodenAxe | Self::WoodenShovel | Self::WoodenSword
            | Self::StonePickaxe | Self::StoneAxe | Self::StoneShovel | Self::StoneSword
            | Self::IronPickaxe | Self::IronAxe | Self::IronShovel | Self::IronSword
            | Self::DiamondPickaxe | Self::DiamondAxe | Self::DiamondShovel | Self::DiamondSword
            | Self::WoodenHoe | Self::StoneHoe | Self::IronHoe | Self::DiamondHoe
            | Self::LeatherHelmet | Self::LeatherChestplate | Self::LeatherLeggings
            | Self::LeatherBoots | Self::IronHelmet | Self::IronChestplate | Self::IronLeggings
            | Self::IronBoots | Self::DiamondHelmet | Self::DiamondChestplate
            | Self::DiamondLeggings | Self::DiamondBoots => 1,
            _ => 64,
        }
    }

    /// The human-readable name shown in tooltips; block items use their
    /// block's name.
    pub fn display_name(self) -> (r: &'static str)
        ensures
            r@ == spec_item_display_name(self),
    {
        match self {
            Self::Block(bt) => bt.display_name(),
            Self::Stick => "Stick",
            Self::Coal => "Coal",
            Self::IronIngot => "Iron Ingot",
            Self::GoldIngot => "Gold Ingot",
            Self::Diamond => "Diamond",
            Self::WoodenPickaxe => "Wooden Pickaxe",
            Self::WoodenAxe => "Wooden Axe",
            Self::WoodenShovel => "Wooden Shovel",
            Self::WoodenSword => "Wooden Sword",
            Self::StonePickaxe => "Stone Pickaxe",
            Self::StoneAxe => "Stone Axe",
            Self::StoneShovel => "Stone Shovel",
            Self::StoneSword => "Stone Sword",
            Self::IronPickaxe => "Iron Pickaxe",
            Self::IronAxe => "Iron Axe",
            Self::IronShovel => "Iron Shovel",
            Self::IronSword => "Iron Sword",
            Self::DiamondPickaxe => "Diamond Pickaxe",
            Self::DiamondAxe => "Diamond Axe",
            Self::DiamondShovel => "Diamond Shovel",
            Self::DiamondSword => "Diamond Sword",
            Self::Apple => "Apple",
            Self::Bread => "Bread",
            Self::CookedPorkchop => "Cooked Porkchop",
            Self::RawPorkchop => "Raw Porkchop",
            Self::RawBeef => "Raw Beef",
            Self::CookedBeef => "Cooked Beef",
            Self::Leather => "Leather",
            Self::RawMutton => "Raw Mutton",
            Self::CookedMutton => "Cooked Mutton",
            Self::Wool => "Wool",
            Self::RottenFlesh => "Rotten Flesh",
            Self::Bone => "Bone",
            Self::WoodenHoe => "Wooden Hoe",
            Self::StoneHoe => "Stone Hoe",
            Self::IronHoe => "Iron Hoe",
            Self::DiamondHoe => "Diamond Hoe",
            Self::Seeds => "Seeds",
            Self::Wheat => "Wheat",
            Self::LeatherHelmet => "Leather Helmet",
            Self::LeatherChestplate => "Leather Chestplate",
            Self::LeatherLeggings => "Leather Leggings",
            Self::LeatherBoots => "Leather Boots",
            Self::IronHelmet => "Iron Helmet",
            Self::IronChestplate => "Iron Chestplate",
            Self::IronLeggings => "Iron Leggings",
            Self::IronBoots => "Iron Boots",
            Self::DiamondHelmet => "Diamond Helmet",
            Self::DiamondChestplate => "Diamond Chestplate",
            Self::DiamondLeggings => "Diamond Leggings",
            Self::DiamondBoots => "Diamond Boots",
        }
    }

    /// True iff the item is a placeable block.
    pub fn is_block(self) -> (r: bool)
        ensures
            r == (self is Block),
    {
        match self {
            Self::Block(_) => true,
            _ => false,
        }
    }

    /// The block an item places, if it is a block item.
    pub fn as_block(self) -> (r: Option<BlockType>)
        ensures
            self is Block ==> r == Some(self->Block_0),
            !(self is Block) ==> r is None,
    {
        match self {
            Self::Block(bt) => Some(bt),
            _ => None,
        }
    }

    /// True iff the item is a tool.
    pub fn is_tool(self) -> (r: bool)
        ensures
            r == (spec_tool_kind(self) is Some),
    {
        self.tool_kind().is_some()
    }

    /// The tool class, if the item is a tool.
    pub fn tool_kind(self) -> (r: Option<ToolKind>)
        ensures
            r == spec_tool_kind(self),
    {
        match self {
            Self::WoodenPickaxe | Self::StonePickaxe | Self::IronPickaxe
            | Self::DiamondPickaxe => Some(ToolKind::Pickaxe),
            Self::WoodenAxe | Self::StoneAxe | Self::IronAxe | Self::DiamondAxe => {
                Some(ToolKind::Axe)
            },
            Self::WoodenShovel | Self::StoneShovel | Self::IronShovel | Self::DiamondShovel => {
                Some(ToolKind::Shovel)
            },
            Self::WoodenSword | Self::StoneSword | Self::IronSword | Self::DiamondSword => {
                Some(ToolKind::Sword)
            },
            Self::WoodenHoe | Self::StoneHoe | Self::IronHoe | Self::DiamondHoe => {
                Some(ToolKind::Hoe)
            },
            _ => None,
        }
    }

    /// The material tier, if the item is a tool.
    pub fn tool_tier(self) -> (r: Option<ToolTier>)
        ensures
            r == spec_tool_tier(self),
    {
        match self {
            Self::WoodenPickaxe | Self::WoodenAxe | Self::WoodenShovel | Self::WoodenSword
            | Self::WoodenHoe => Some(ToolTier::Wooden),
            Self::StonePickaxe | Self::StoneAxe | Self::StoneShovel | Self::StoneSword
            | Self::StoneHoe => Some(ToolTier::Stone),
            Self::IronPickaxe | Self::IronAxe | Self::IronShovel | Self::IronSword
            | Self::IronHoe => Some(ToolTier::Iron),
            Self::DiamondPickaxe | Self::DiamondAxe | Self::DiamondShovel | Self::DiamondSword
            | Self::DiamondHoe => Some(ToolTier::Diamond),
            _ => None,
        }
    }

    /// True iff eating the item restores food.
    pub fn is_food(self) -> (r: bool)
        ensures
            r == spec_is_food(self),
    {
        match self {
            Self::Apple | Self::Bread | Self::CookedPorkchop | Self::RawPorkchop | Self::RawBeef
            | Self::CookedBeef | Self::RawMutton | Self::CookedMutton | Self::RottenFlesh => true,
            _ => false,
        }
    }

    /// Maximum durability in uses: armor by its table, tools by their tier,
    /// zero for everything else.
    pub fn max_durability(self) -> (r: u16)
        ensures
            spec_armor_durability(self) is Some ==> r == spec_armor_durability(self)->Some_0,
            spec_armor_durability(self) is None ==> r == match spec_tool_tier(self) {
                Some(ToolTier::Wooden) => 59u16,
                Some(ToolTier::Stone) => 131u16,
                Some(ToolTier::Iron) => 250u16,
                Some(ToolTier::Gold) => 32u16,
                Some(ToolTier::Diamond) => 1561u16,
                None => 0u16,
            },
    {
        if let Some(dur) = self.armor_durability() {
            return dur;
        }
        match self.tool_tier() {
            Some(ToolTier::Wooden) => 59,
            Some(ToolTier::Stone) => 131,
            Some(ToolTier::Iron) => 250,
            Some(ToolTier::Gold) => 32,
            Some(ToolTier::Diamond) => 1561,
            None => 0,
        }
    }

    /// True iff the item is an armor piece.
    pub fn is_armor(self) -> (r: bool)
        ensures
            r == (spec_armor_slot(self) is Some),
    {
        self.armor_slot().is_some()
    }

    /// The armor slot index: 0 helmet, 1 chestplate, 2 leggings, 3 boots.
    pub fn armor_slot(self) -> (r: Option<usize>)
        ensures
            r == spec_armor_slot(self),
    {
        match self {
            Self::LeatherHelmet | Self::IronHelmet | Self::DiamondHelmet => Some(0),
            Self::LeatherChestplate | Self::IronChestplate | Self::DiamondChestplate => Some(1),
            Self::LeatherLeggings | Self::IronLeggings | Self::DiamondLeggings => Some(2),
            Self::LeatherBoots | Self::IronBoots | Self::DiamondBoots => Some(3),
            _ => None,
        }
    }

    /// The defense points of an armor piece; zero for anything else.
    pub fn armor_points(self) -> (r: u8)
        ensures
            r == spec_armor_points(self),
    {
        match self {
            Self::LeatherHelmet => 1,
            Self::LeatherChestplate => 3,
            Self::LeatherLeggings => 2,
            Self::LeatherBoots => 1,
            Self::IronHelmet => 2,
            Self::IronChestplate => 6,
            Self::IronLeggings => 5,
            Self::IronBoots => 2,
            Self::DiamondHelmet => 3,
            Self::DiamondChestplate => 8,
            Self::DiamondLeggings => 6,
            Self::DiamondBoots => 3,
            _ => 0,
        }
    }

    /// The durability of an armor piece, if the item is armor.
    pub fn armor_durability(self) -> (r: Option<u16>)
        ensures
            r == spec_armor_durability(self),
    {
        match self {
            Self::LeatherHelmet => Some(55),
            Self::LeatherChestplate => Some(80),
            Self::LeatherLeggings => Some(75),
            Self::LeatherBoots => Some(65),
            Self::IronHelmet => Some(165),
            Self::IronChestplate => Some(240),
            Self::IronLeggings => Some(225),
            Self::IronBoots => Some(195),
            Self::DiamondHelmet => Some(363),
            Self::DiamondChestplate => Some(528),
            Self::DiamondLeggings => Some(495),
            Self::DiamondBoots => Some(429),
            _ => None,
        }
    }
}

} // verus!
