use vstd::prelude::*;

use crate::enum_array::EnumDiscriminant;

verus! {

/// Every kind of item an entity can hold.
#[derive(Debug, Clone, Copy, PartialEq, Eq, Structural, Hash)]
pub enum ItemType {
    Dirt,
    Stone,
    DarkStone,
    MossyStone,
    VoidStone,
    RadioactiveStone,
    // Ores
    Copper,
    Tin,
    Bronze,
    Coal,
    Iron,
    Steel,
    MagicMetal,
    // Tools
    CopperPickaxe,
    BronzePickaxe,
    IronPickaxe,
    SteelPickaxe,
    MagicMetalPickaxe,
    // Interactable blocks
    Chest,
    Crafter,
}

/// Every kind of block the world is made of.
#[derive(Debug, Clone, Copy, PartialEq, Eq, Structural, Hash)]
pub enum BlockType {
    Air,
    Dirt,
    Stone,
    DarkStone,
    MossyStone,
    VoidStone,
    RadioactiveStone,
    // Ores
    Copper,
    Tin,
    Iron,
    Coal,
    MagicMetal,
    // Interactables
    Chest,
    Crafter,
}

impl EnumDiscriminant for ItemType {
    const COUNT: usize = 20;

    open spec fn index_of(&self) -> nat {
        match self {
            ItemType::Dirt => 0,
            ItemType::Stone => 1,
            ItemType::DarkStone => 2,
            ItemType::MossyStone => 3,
            ItemType::VoidStone => 4,
            ItemType::RadioactiveStone => 5,
            ItemType::Copper => 6,
            ItemType::Tin => 7,
            ItemType::Bronze => 8,
            ItemType::Coal => 9,
            ItemType::Iron => 10,
            ItemType::Steel => 11,
            ItemType::MagicMetal => 12,
            ItemType::CopperPickaxe => 13,
            ItemType::BronzePickaxe => 14,
            ItemType::IronPickaxe => 15,
            ItemType::SteelPickaxe => 16,
            ItemType::MagicMetalPickaxe => 17,
            ItemType::Chest => 18,
            ItemType::Crafter => 19,
        }
    }

    fn discriminant(&self) -> (d: usize) {
        match self {
            ItemType::Dirt => 0,
            ItemType::Stone => 1,
            ItemType::DarkStone => 2,
            ItemType::MossyStone => 3,
            ItemType::VoidStone => 4,
            ItemType::RadioactiveStone => 5,
            ItemType::Copper => 6,
            ItemType::Tin => 7,
            ItemType::Bronze => 8,
            ItemType::Coal => 9,
            ItemType::Iron => 10,
            ItemType::Steel => 11,
            ItemType::MagicMetal => 12,
            ItemType::CopperPickaxe => 13,
            ItemType::BronzePickaxe => 14,
            ItemType::IronPickaxe => 15,
            ItemType::SteelPickaxe => 16,
            ItemType::MagicMetalPickaxe => 17,
            ItemType::Chest => 18,
            ItemType::Crafter => 19,
        }
    }
}

impl EnumDiscriminant for BlockType {
    const COUNT: usize = 14;

    open spec fn index_of(&self) -> nat {
        match self {
            BlockType::Air => 0,
            BlockType::Dirt => 1,
            BlockType::Stone => 2,
            BlockType::DarkStone => 3,
            BlockType::MossyStone => 4,
            BlockType::VoidStone => 5,
            BlockType::RadioactiveStone => 6,
            BlockType::Copper => 7,
            BlockType::Tin => 8,
            BlockType::Iron => 9,
            BlockType::Coal => 10,
            BlockType::MagicMetal => 11,
            BlockType::Chest => 12,
            BlockType::Crafter => 13,
        }
    }

    fn discriminant(&self) -> (d: usize) {
        match self {
            BlockType::Air => 0,
            BlockType::Dirt => 1,
            BlockType::Stone => 2,
            BlockType::DarkStone => 3,
            BlockType::MossyStone => 4,
            BlockType::VoidStone => 5,
            BlockType::RadioactiveStone => 6,
            BlockType::Copper => 7,
            BlockType::Tin => 8,
            BlockType::Iron => 9,
            BlockType::Coal => 10,
            BlockType::MagicMetal => 11,
            BlockType::Chest => 12,
            BlockType::Crafter => 13,
        }
    }
}

/// There are 20 item kinds and 14 block kinds.
pub proof fn lemma_variant_counts()
    ensures
        ItemType::COUNT == 20,
        BlockType::COUNT == 14,
{
}

/// Distinct variants have distinct indices.
pub proof fn lemma_item_index_injective(a: ItemType, b: ItemType)
    ensures
        a.index_of() == b.index_of() <==> a == b,
        a.index_of() < ItemType::COUNT,
        ItemType::COUNT == 20,
{
}

/// Distinct variants have distinct indices.
pub proof fn lemma_block_index_injective(a: BlockType, b: BlockType)
    ensures
        a.index_of() == b.index_of() <==> a == b,
        a.index_of() < BlockType::COUNT,
{
}

/// The block data: how hard each block is to break (`None`: unbreakable) and the item it
/// gives when broken.
pub proof fn lemma_block_table()
    ensures
        BlockType::Air.spec_hardness() == None::<u32>,
        BlockType::Dirt.spec_hardness() == Some(0u32),
        BlockType::Stone.spec_hardness() == Some(10u32),
        BlockType::DarkStone.spec_hardness() == Some(100u32),
        BlockType::MossyStone.spec_hardness() == Some(10u32),
        BlockType::VoidStone.spec_hardness() == Some(200u32),
        BlockType::RadioactiveStone.spec_hardness() == Some(200u32),
        BlockType::Copper.spec_hardness() == Some(100u32),
        BlockType::Tin.spec_hardness() == Some(200u32),
        BlockType::Iron.spec_hardness() == Some(300u32),
        BlockType::Coal.spec_hardness() == Some(300u32),
        BlockType::MagicMetal.spec_hardness() == Some(400u32),
        BlockType::Chest.spec_hardness() == Some(0u32),
        BlockType::Crafter.spec_hardness() == Some(0u32),
        BlockType::Air.spec_item_on_break() == None::<ItemType>,
        BlockType::Dirt.spec_item_on_break() == Some(ItemType::Dirt),
        BlockType::Stone.spec_item_on_break() == Some(ItemType::Stone),
        BlockType::DarkStone.spec_item_on_break() == Some(ItemType::DarkStone),
        BlockType::MossyStone.spec_item_on_break() == Some(ItemType::MossyStone),
        BlockType::VoidStone.spec_item_on_break() == Some(ItemType::VoidStone),
        BlockType::RadioactiveStone.spec_item_on_break() == Some(ItemType::RadioactiveStone),
        BlockType::Copper.spec_item_on_break() == Some(ItemType::Copper),
        BlockType::Tin.spec_item_on_break() == Some(ItemType::Tin),
        BlockType::Iron.spec_item_on_break() == Some(ItemType::Iron),
        BlockType::Coal.spec_item_on_break() == Some(ItemType::Coal),
        BlockType::MagicMetal.spec_item_on_break() == Some(ItemType::MagicMetal),
        BlockType::Chest.spec_item_on_break() == Some(ItemType::Chest),
        BlockType::Crafter.spec_item_on_break() == Some(ItemType::Crafter),
{
}

/// The item data: the block each item places and the breaking strength of each tool.
pub proof fn lemma_item_table()
    ensures
        ItemType::CopperPickaxe.spec_breaking_strength() == Some(100u32),
        ItemType::BronzePickaxe.spec_breaking_strength() == Some(200u32),
        ItemType::IronPickaxe.spec_breaking_strength() == Some(300u32),
        ItemType::SteelPickaxe.spec_breaking_strength() == Some(400u32),
        ItemType::MagicMetalPickaxe.spec_breaking_strength() == Some(500u32),
        forall|i: ItemType|
            !(i == ItemType::CopperPickaxe || i == ItemType::BronzePickaxe || i == ItemType::IronPickaxe
                || i == ItemType::SteelPickaxe || i == ItemType::MagicMetalPickaxe)
                ==> #[trigger] i.spec_breaking_strength() is None,
        ItemType::Dirt.spec_block() == Some(BlockType::Dirt),
        ItemType::Stone.spec_block() == Some(BlockType::Stone),
        ItemType::DarkStone.spec_block() == Some(BlockType::DarkStone),
        ItemType::MossyStone.spec_block() == Some(BlockType::MossyStone),
        ItemType::VoidStone.spec_block() == Some(BlockType::VoidStone),
        ItemType::RadioactiveStone.spec_block() == Some(BlockType::RadioactiveStone),
        ItemType::Copper.spec_block() == Some(BlockType::Copper),
        ItemType::Tin.spec_block() == Some(BlockType::Tin),
        ItemType::Coal.spec_block() == Some(BlockType::Coal),
        ItemType::Iron.spec_block() == Some(BlockType::Iron),
        ItemType::MagicMetal.spec_block() == Some(BlockType::MagicMetal),
        ItemType::Chest.spec_block() == Some(BlockType::Chest),
{
}

/// The item kind with variant index `i`.
pub open spec fn item_at(i: int) -> ItemType {
    if i == 0 {
        ItemType::Dirt
    } else if i == 1 {
        ItemType::Stone
    } else if i == 2 {
        ItemType::DarkStone
    } else if i == 3 {
        ItemType::MossyStone
    } else if i == 4 {
        ItemType::VoidStone
    } else if i == 5 {
        ItemType::RadioactiveStone
    } else if i == 6 {
        ItemType::Copper
    } else if i == 7 {
        ItemType::Tin
    } else if i == 8 {
        ItemType::Bronze
    } else if i == 9 {
        ItemType::Coal
    } else if i == 10 {
        ItemType::Iron
    } else if i == 11 {
        ItemType::Steel
    } else if i == 12 {
        ItemType::MagicMetal
    } else if i == 13 {
        ItemType::CopperPickaxe
    } else if i == 14 {
        ItemType::BronzePickaxe
    } else if i == 15 {
        ItemType::IronPickaxe
    } else if i == 16 {
        ItemType::SteelPickaxe
    } else if i == 17 {
        ItemType::MagicMetalPickaxe
    } else if i == 18 {
        ItemType::Chest
    } else {
        ItemType::Crafter
    }
}

/// Numbering the variants and reading the numbers back give the same variants.
pub proof fn lemma_item_at_index(item: ItemType, i: int)
    ensures
        item_at(item.index_of() as int) == item,
        0 <= i < 20 ==> item_at(i).index_of() == i,
{
}

impl ItemType {
    /// The item kind with variant index `i`.
    pub fn from_index(i: usize) -> (item: ItemType)
        requires
            i < ItemType::COUNT,
        ensures
            item == item_at(i as int),
            item.index_of() == i,
    {
        match i {
            0 => ItemType::Dirt,
            1 => ItemType::Stone,
            2 => ItemType::DarkStone,
            3 => ItemType::MossyStone,
            4 => ItemType::VoidStone,
            5 => ItemType::RadioactiveStone,
            6 => ItemType::Copper,
            7 => ItemType::Tin,
            8 => ItemType::Bronze,
            9 => ItemType::Coal,
            10 => ItemType::Iron,
            11 => ItemType::Steel,
            12 => ItemType::MagicMetal,
            13 => ItemType::CopperPickaxe,
            14 => ItemType::BronzePickaxe,
            15 => ItemType::IronPickaxe,
            16 => ItemType::SteelPickaxe,
            17 => ItemType::MagicMetalPickaxe,
            18 => ItemType::Chest,
            _ => ItemType::Crafter,
        }
    }

    /// The block placed when this item is used on the world, if any.
    pub open spec fn spec_block(self) -> Option<BlockType> {
        match self {
            ItemType::Dirt => Some(BlockType::Dirt),
            ItemType::Stone => Some(BlockType::Stone),
            ItemType::DarkStone => Some(BlockType::DarkStone),
            ItemType::MossyStone => Some(BlockType::MossyStone),
            ItemType::VoidStone => Some(BlockType::VoidStone),
            ItemType::RadioactiveStone => Some(BlockType::RadioactiveStone),
            ItemType::Copper => Some(BlockType::Copper),
            ItemType::Tin => Some(BlockType::Tin),
            ItemType::Coal => Some(BlockType::Coal),
            ItemType::Iron => Some(BlockType::Iron),
            ItemType::MagicMetal => Some(BlockType::MagicMetal),
            ItemType::Chest => Some(BlockType::Chest),
            _ => None,
        }
    }

    /// The block placed when this item is used on the world, if any.
    pub fn block(&self) -> (b: Option<BlockType>)
        ensures
            b == self.spec_block(),
    {
        match self {
            ItemType::Dirt => Some(BlockType::Dirt),
            ItemType::Stone => Some(BlockType::Stone),
            ItemType::DarkStone => Some(BlockType::DarkStone),
            ItemType::MossyStone => Some(BlockType::MossyStone),
            ItemType::VoidStone => Some(BlockType::VoidStone),
            ItemType::RadioactiveStone => Some(BlockType::RadioactiveStone),
            ItemType::Copper => Some(BlockType::Copper),
            ItemType::Tin => Some(BlockType::Tin),
            ItemType::Coal => Some(BlockType::Coal),
            ItemType::Iron => Some(BlockType::Iron),
            ItemType::MagicMetal => Some(BlockType::MagicMetal),
            ItemType::Chest => Some(BlockType::Chest),
            _ => None,
        }
    }

    /// How hard a block this item can break when held, if it is a tool.
    pub open spec fn spec_breaking_strength(self) -> Option<u32> {
        match self {
            ItemType::CopperPickaxe => Some(100),
            ItemType::BronzePickaxe => Some(200),
            ItemType::IronPickaxe => Some(300),
            ItemType::SteelPickaxe => Some(400),
            ItemType::MagicMetalPickaxe => Some(500),
            _ => None,
        }
    }

    /// How hard a block this item can break when held, if it is a tool.
    pub fn breaking_strength(&self) -> (s: Option<u32>)
        ensures
            s == self.spec_breaking_strength(),
    {
        match self {
            ItemType::CopperPickaxe => Some(100),
            ItemType::BronzePickaxe => Some(200),
            ItemType::IronPickaxe => Some(300),
            ItemType::SteelPickaxe => Some(400),
            ItemType::MagicMetalPickaxe => Some(500),
            _ => None,
        }
    }
}

impl BlockType {
    /// `None` is unbreakable, 0 is broken by anything, bigger is harder to break.
    pub open spec fn spec_hardness(self) -> Option<u32> {
        match self {
            BlockType::Air => None,
            BlockType::Dirt => Some(0),
            BlockType::Stone => Some(10),
            BlockType::DarkStone => Some(100),
            BlockType::MossyStone => Some(10),
            BlockType::VoidStone => Some(200),
            BlockType::RadioactiveStone => Some(200),
            BlockType::Copper => Some(100),
            BlockType::Tin => Some(200),
            BlockType::Iron => Some(300),
            BlockType::Coal => Some(300),
            BlockType::MagicMetal => Some(400),
            BlockType::Chest => Some(0),
            BlockType::Crafter => Some(0),
        }
    }

    /// `None` is unbreakable, 0 is broken by anything, bigger is harder to break.
    pub fn hardness(&self) -> (h: Option<u32>)
        ensures
            h == self.spec_hardness(),
    {
        match self {
            BlockType::Air => None,
            BlockType::Dirt => Some(0),
            BlockType::Stone => Some(10),
            BlockType::DarkStone => Some(100),
            BlockType::MossyStone => Some(10),
            BlockType::VoidStone => Some(200),
            BlockType::RadioactiveStone => Some(200),
            BlockType::Copper => Some(100),
            BlockType::Tin => Some(200),
            BlockType::Iron => Some(300),
            BlockType::Coal => Some(300),
            BlockType::MagicMetal => Some(400),
            BlockType::Chest => Some(0),
            BlockType::Crafter => Some(0),
        }
    }

    /// The item given to whoever breaks this block, if any.
    pub open spec fn spec_item_on_break(self) -> Option<ItemType> {
        match self {
            BlockType::Air => None,
            BlockType::Dirt => Some(ItemType::Dirt),
            BlockType::Stone => Some(ItemType::Stone),
            BlockType::DarkStone => Some(ItemType::DarkStone),
            BlockType::MossyStone => Some(ItemType::MossyStone),
            BlockType::VoidStone => Some(ItemType::VoidStone),
            BlockType::RadioactiveStone => Some(ItemType::RadioactiveStone),
            BlockType::Copper => Some(ItemType::Copper),
            BlockType::Tin => Some(ItemType::Tin),
            BlockType::Iron => Some(ItemType::Iron),
            BlockType::Coal => Some(ItemType::Coal),
            BlockType::MagicMetal => Some(ItemType::MagicMetal),
            BlockType::Chest => Some(ItemType::Chest),
            BlockType::Crafter => Some(ItemType::Crafter),
        }
    }

    /// The item given to whoever breaks this block, if any.
    pub fn item_on_break(&self) -> (i: Option<ItemType>)
        ensures
            i == self.spec_item_on_break(),
    {
        match self {
            BlockType::Air => None,
            BlockType::Dirt => Some(ItemType::Dirt),
            BlockType::Stone => Some(ItemType::Stone),
            BlockType::DarkStone => Some(ItemType::DarkStone),
            BlockType::MossyStone => Some(ItemType::MossyStone),
            BlockType::VoidStone => Some(ItemType::VoidStone),
            BlockType::RadioactiveStone => Some(ItemType::RadioactiveStone),
            BlockType::Copper => Some(ItemType::Copper),
            BlockType::Tin => Some(ItemType::Tin),
            BlockType::Iron => Some(ItemType::Iron),
            BlockType::Coal => Some(ItemType::Coal),
            BlockType::MagicMetal => Some(ItemType::MagicMetal),
            BlockType::Chest => Some(ItemType::Chest),
            BlockType::Crafter => Some(ItemType::Crafter),
        }
    }

    /// Whether the block is drawn; only air is not.
    pub open spec fn spec_renderable(self) -> bool {
        self != BlockType::Air
    }

    /// Whether the block is drawn; only air is not.
    pub fn renderable(&self) -> (r: bool)
        ensures
            r == self.spec_renderable(),
    {
        !matches!(self, BlockType::Air)
    }

    /// Whether right-clicking the block opens its interface.
    pub open spec fn spec_interactable(self) -> bool {
        self == BlockType::Chest || self == BlockType::Crafter
    }

    /// Whether right-clicking the block opens its interface.
    pub fn interactable(&self) -> (r: bool)
        ensures
            r == self.spec_interactable(),
    {
        matches!(self, BlockType::Chest | BlockType::Crafter)
    }
}

} // verus!
