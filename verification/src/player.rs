use vstd::prelude::*;

use crate::container::{count_of, Container};
use crate::data::ItemType;
use crate::enum_array::EnumDiscriminant;
use crate::hotbar::{Hotbar, HOTBAR_SLOTS};

verus! {

/// How many of `item` a new player starts with.
pub open spec fn starting_count(item: ItemType) -> usize {
    match item {
        ItemType::Dirt => 5,
        ItemType::Stone | ItemType::Coal | ItemType::Iron | ItemType::Copper | ItemType::Tin
        | ItemType::Bronze | ItemType::Steel | ItemType::MagicMetal | ItemType::Chest
        | ItemType::Crafter => 12,
        _ => 0,
    }
}

/// The inventory a new player starts with.
pub fn starting_inventory() -> (inv: Container)
    ensures
        inv.wf(),
        forall|item: ItemType| #[trigger] count_of(inv@, item) == starting_count(item),
{
    let mut inventory = Container::new();
    proof { crate::data::lemma_variant_counts(); }
    inventory.add_item(ItemType::Dirt, 5);
    inventory.add_item(ItemType::Stone, 12);
    inventory.add_item(ItemType::Coal, 12);
    inventory.add_item(ItemType::Iron, 12);
    inventory.add_item(ItemType::Copper, 12);
    inventory.add_item(ItemType::Tin, 12);
    inventory.add_item(ItemType::Bronze, 12);
    inventory.add_item(ItemType::Steel, 12);
    inventory.add_item(ItemType::MagicMetal, 12);
    inventory.add_item(ItemType::Chest, 12);
    inventory.add_item(ItemType::Crafter, 12);
    assert forall|item: ItemType| #[trigger] count_of(inventory@, item) == starting_count(item) by {
        crate::data::lemma_item_index_injective(item, item);
    }
    inventory
}

/// The hotbar a new player starts with: stone in slot 2, dirt in slot 4, slot 0 selected.
pub fn starting_hotbar() -> (h: Hotbar)
    ensures
        h.selected == 0,
        h.slots@[2] == Some(ItemType::Stone),
        h.slots@[4] == Some(ItemType::Dirt),
        forall|i: int| 0 <= i < HOTBAR_SLOTS && i != 2 && i != 4 ==> h.slots@[i] is None,
{
    let mut hotbar = Hotbar::new();
    hotbar.set_favourite(4, ItemType::Dirt);
    hotbar.set_favourite(2, ItemType::Stone);
    hotbar
}

} // verus!
