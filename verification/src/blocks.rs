use vstd::prelude::*;

use crate::container::{count_of, craft_fits, has_ingredients, spec_craft, Container};
use crate::data::{BlockType, ItemType};
use crate::enum_array::EnumDiscriminant;
use crate::geometry::BlockPos;
use crate::recipe::Recipe;
use crate::InteractionMode;

verus! {

/// What happens when a player right-clicks a block that has state: the interaction
/// mode the game switches to, if any.
pub trait StatefulBlock {
    fn on_right_click(&self) -> Option<InteractionMode>;
}

/// A chest: it stores items.
pub struct ChestState {
    pub pos: BlockPos,
    pub items: Container,
}

/// A crafter: it stores items and turns them into the output of its recipe.
pub struct CrafterState {
    pub pos: BlockPos,
    pub recipe: Option<Recipe>,
    pub inventory: Container,
}

/// The state of a block that has one.
pub enum BlockState {
    Chest(ChestState),
    Crafter(CrafterState),
}

impl ChestState {
    /// An empty chest at `pos`.
    pub fn new(pos: &BlockPos) -> (c: Self)
        ensures
            c.pos == *pos,
            c.items.wf(),
            c.items@ == Seq::new(ItemType::COUNT as nat, |i: int| 0usize),
    {
        ChestState { pos: *pos, items: Container::new() }
    }
}

impl StatefulBlock for ChestState {
    /// Opens the chest's interface.
    fn on_right_click(&self) -> (mode: Option<InteractionMode>)
        ensures
            mode == Some(InteractionMode::Block(self.pos)),
    {
        Some(InteractionMode::Block(self.pos))
    }
}

impl CrafterState {
    /// An empty crafter at `pos` with no recipe.
    pub fn new(pos: &BlockPos) -> (c: Self)
        ensures
            c.pos == *pos,
            c.recipe is None,
            c.inventory.wf(),
            c.inventory@ == Seq::new(ItemType::COUNT as nat, |i: int| 0usize),
    {
        CrafterState { pos: *pos, recipe: None, inventory: Container::new() }
    }

    /// Make `recipe` the one this crafter works on.
    pub fn set_recipe(&mut self, recipe: &Recipe)
        ensures
            final(self).recipe matches Some(r) && r@ == recipe@,
            final(self).pos == old(self).pos,
            final(self).inventory == old(self).inventory,
    {
        self.recipe = Some(recipe.clone_recipe());
    }

    /// Whether the crafter makes progress: it has a recipe and holds all its inputs.
    pub fn is_working(&self) -> (b: bool)
        requires
            self.inventory.wf(),
        ensures
            b == (self.recipe matches Some(r) && has_ingredients(self.inventory@, r.inputs@)),
    {
        match &self.recipe {
            Some(r) => self.inventory.can_craft(r),
            None => false,
        }
    }

    /// Complete one craft of the recipe, once enough work has gone into it.
    pub fn craft_once(&mut self)
        requires
            old(self).inventory.wf(),
            old(self).recipe matches Some(r) && r.wf() && has_ingredients(
                old(self).inventory@,
                r.inputs@,
            ) && craft_fits(old(self).inventory@, r@),
        ensures
            final(self).inventory.wf(),
            final(self).inventory@ == spec_craft(old(self).inventory@, old(self).recipe->0@),
            final(self).pos == old(self).pos,
            final(self).recipe == old(self).recipe,
    {
        match &self.recipe {
            Some(r) => self.inventory.craft_recipe(r),
            None => {},
        }
    }
}

impl StatefulBlock for CrafterState {
    /// Opens the crafter's interface.
    fn on_right_click(&self) -> (mode: Option<InteractionMode>)
        ensures
            mode == Some(InteractionMode::Block(self.pos)),
    {
        Some(InteractionMode::Block(self.pos))
    }
}

/// Two states of the same block kind at the same position; a crafter keeps its recipe.
pub open spec fn same_kind(a: BlockState, b: BlockState) -> bool {
    match (a, b) {
        (BlockState::Chest(x), BlockState::Chest(y)) => x.pos == y.pos,
        (BlockState::Crafter(x), BlockState::Crafter(y)) => x.pos == y.pos && x.recipe == y.recipe,
        _ => false,
    }
}

impl BlockState {
    /// The items the block holds.
    pub open spec fn items(&self) -> Container {
        match self {
            BlockState::Chest(c) => c.items,
            BlockState::Crafter(c) => c.inventory,
        }
    }

    /// The block's position.
    pub open spec fn pos(&self) -> BlockPos {
        match self {
            BlockState::Chest(c) => c.pos,
            BlockState::Crafter(c) => c.pos,
        }
    }

    /// The block's items, as a container.
    pub fn as_container(&self) -> (c: &Container)
        ensures
            *c == self.items(),
    {
        match self {
            BlockState::Chest(c) => &c.items,
            BlockState::Crafter(c) => &c.inventory,
        }
    }

    /// Put `count` of `item` into the block.
    pub fn add_item(&mut self, item: ItemType, count: usize)
        requires
            old(self).items().wf(),
            count_of(old(self).items()@, item) + count <= usize::MAX,
        ensures
            final(self).items().wf(),
            final(self).items()@ == old(self).items()@.update(
                item.index_of() as int,
                (count_of(old(self).items()@, item) + count) as usize,
            ),
            final(self).pos() == old(self).pos(),
            same_kind(*old(self), *final(self)),
    {
        match self {
            BlockState::Chest(c) => c.items.add_item(item, count),
            BlockState::Crafter(c) => c.inventory.add_item(item, count),
        }
    }

    /// Take `count` of `item` out of the block; at least that many must be there.
    pub fn remove_item(&mut self, item: ItemType, count: usize)
        requires
            old(self).items().wf(),
            count_of(old(self).items()@, item) >= count,
        ensures
            final(self).items().wf(),
            final(self).items()@ == old(self).items()@.update(
                item.index_of() as int,
                (count_of(old(self).items()@, item) - count) as usize,
            ),
            final(self).pos() == old(self).pos(),
            same_kind(*old(self), *final(self)),
    {
        match self {
            BlockState::Chest(c) => c.items.remove_item(item, count),
            BlockState::Crafter(c) => c.inventory.remove_item(item, count),
        }
    }
}

impl StatefulBlock for BlockState {
    /// Opens the block's interface.
    fn on_right_click(&self) -> (mode: Option<InteractionMode>)
        ensures
            mode == Some(InteractionMode::Block(self.pos())),
    {
        match self {
            BlockState::Chest(c) => c.on_right_click(),
            BlockState::Crafter(c) => c.on_right_click(),
        }
    }
}

/// The state a newly placed block starts with: chests and crafters start empty,
/// other blocks have none.
pub fn create_block_state(pos: &BlockPos, block_type: BlockType) -> (s: Option<BlockState>)
    ensures
        match block_type {
            BlockType::Chest => s matches Some(BlockState::Chest(c)) && c.pos == *pos
                && c.items.wf() && c.items@ == Seq::new(ItemType::COUNT as nat, |i: int| 0usize),
            BlockType::Crafter => s matches Some(BlockState::Crafter(c)) && c.pos == *pos
                && c.recipe is None && c.inventory.wf() && c.inventory@ == Seq::new(
                ItemType::COUNT as nat,
                |i: int| 0usize,
            ),
            _ => s is None,
        },
{
    match block_type {
        BlockType::Chest => Some(BlockState::Chest(ChestState::new(pos))),
        BlockType::Crafter => Some(BlockState::Crafter(CrafterState::new(pos))),
        _ => None,
    }
}

} // verus!
