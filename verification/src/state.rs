use vstd::prelude::*;

use crate::block_states::{recipe_set, BlockStates};
use crate::blocks::{create_block_state, same_kind, BlockState, StatefulBlock};
use crate::container::{count_of, Container};
use crate::controls::{none_pressed, spec_handle_mode, MovementKeys};
use crate::data::{BlockType, ItemType};
use crate::enum_array::EnumDiscriminant;
use crate::game::{place_block, spec_place};
use crate::geometry::{Block, BlockPos};
use crate::hotbar::{spec_held_item, spec_scroll, Hotbar, HOTBAR_SLOTS};
use crate::messages::{
    route_transfer_request, spec_route_transfer, ItemFavouritedMessage, PlaceBlockMessage,
    SetCraftingRecipeMessage, TransferItemMessage, TransferItemRequestMessage,
    TransferItemSource,
};
use crate::InteractionMode;

verus! {

/// The messages that change the game's state.
pub enum GameMessage {
    ItemFavourited(ItemFavouritedMessage),
    SetInteractionMode(InteractionMode),
    BreakBlock(BlockPos),
    PlaceBlock(PlaceBlockMessage),
    SetCraftingRecipe(SetCraftingRecipeMessage),
    TransferItemRequest(TransferItemRequestMessage),
    TransferItem(TransferItemMessage),
}

/// The player's items and input state, what the player has open, and the state of the
/// world's stateful blocks.
pub struct GameState {
    pub inventory: Container,
    pub hotbar: Hotbar,
    pub interaction_mode: InteractionMode,
    pub controls: MovementKeys,
    pub block_states: BlockStates,
}

/// How much a transfer changes the count of its item at `at`: plus what arrives, minus
/// what leaves.
pub open spec fn transfer_delta(t: TransferItemMessage, at: TransferItemSource) -> int {
    (if t.dest == at {
        t.count as int
    } else {
        0int
    }) - (if t.source == at {
        t.count as int
    } else {
        0int
    })
}

/// `after` is `before` with the count of `item` changed by `delta`.
pub open spec fn moved(before: Seq<usize>, after: Seq<usize>, item: ItemType, delta: int) -> bool {
    after == before.update(item.index_of() as int, (count_of(before, item) + delta) as usize)
}

impl GameState {
    /// The stores are well formed and the selected hotbar slot exists.
    pub open spec fn wf(&self) -> bool {
        &&& self.inventory.wf()
        &&& self.block_states.wf()
        &&& self.hotbar.selected < HOTBAR_SLOTS
    }

    /// The counts held at `at`, if that store exists.
    pub open spec fn store(&self, at: TransferItemSource) -> Option<Seq<usize>> {
        match at {
            TransferItemSource::Inventory => Some(self.inventory@),
            TransferItemSource::Block(pos) => if self.block_states.view().contains_key(pos) {
                Some(self.block_states.view()[pos].items()@)
            } else {
                None
            },
        }
    }

    /// The transfer can be carried out: both stores exist, the source holds the items and
    /// the destination has room for them.
    pub open spec fn transfer_ok(&self, t: TransferItemMessage) -> bool {
        &&& self.store(t.source) matches Some(s) && count_of(s, t.item) >= t.count
        &&& self.store(t.dest) matches Some(d) && (t.dest != t.source ==> count_of(d, t.item)
            + t.count <= usize::MAX)
    }

    /// The message can be handled: a favourite names an existing slot, a transfer can be
    /// carried out.
    pub open spec fn handles(&self, m: GameMessage) -> bool {
        match m {
            GameMessage::ItemFavourited(f) => f.slot < HOTBAR_SLOTS,
            GameMessage::TransferItem(t) => self.transfer_ok(t),
            _ => true,
        }
    }

    /// A new game: the given player items, everything in the game mode, no block state.
    pub fn new(inventory: Container, hotbar: Hotbar) -> (g: Self)
        requires
            inventory.wf(),
            hotbar.selected < HOTBAR_SLOTS,
        ensures
            g.wf(),
            g.inventory == inventory,
            g.hotbar == hotbar,
            g.interaction_mode == InteractionMode::Game,
            g.controls.enabled,
            none_pressed(g.controls),
            g.block_states.view() == Map::<BlockPos, BlockState>::empty(),
    {
        GameState {
            inventory,
            hotbar,
            interaction_mode: InteractionMode::Game,
            controls: MovementKeys::new(),
            block_states: BlockStates::new(),
        }
    }

    /// Whether the message can be handled.
    pub fn can_handle(&self, m: &GameMessage) -> (b: bool)
        requires
            self.wf(),
        ensures
            b == self.handles(*m),
    {
        match m {
            GameMessage::ItemFavourited(f) => f.slot < HOTBAR_SLOTS,
            GameMessage::TransferItem(t) => {
                let have = match self.count_at(&t.source, t.item) {
                    Some(n) => n >= t.count,
                    None => false,
                };
                let room = match self.count_at(&t.dest, t.item) {
                    Some(n) => t.dest == t.source || n <= usize::MAX - t.count,
                    None => false,
                };
                have && room
            },
            _ => true,
        }
    }

    /// How many of `item` the store at `at` holds, if that store exists.
    pub fn count_at(&self, at: &TransferItemSource, item: ItemType) -> (n: Option<usize>)
        requires
            self.wf(),
        ensures
            match self.store(*at) {
                Some(s) => n == Some(count_of(s, item)),
                None => n is None,
            },
    {
        match at {
            TransferItemSource::Inventory => Some(self.inventory.count(item)),
            TransferItemSource::Block(pos) => match self.block_states.get(pos) {
                Some(st) => {
                    proof { self.block_states.lemma_stored_items_wf(*pos); }
                    Some(st.as_container().count(item))
                },
                None => None,
            },
        }
    }

    /// Carry out a transfer: the items leave the source, then arrive at the destination.
    fn transfer(&mut self, t: &TransferItemMessage)
        requires
            old(self).wf(),
            old(self).transfer_ok(*t),
        ensures
            final(self).wf(),
            final(self).hotbar == old(self).hotbar,
            final(self).interaction_mode == old(self).interaction_mode,
            final(self).controls == old(self).controls,
            moved(old(self).inventory@, final(self).inventory@, t.item, transfer_delta(*t, TransferItemSource::Inventory)),
            final(self).block_states.view().dom() == old(self).block_states.view().dom(),
            forall|pos: BlockPos| #[trigger] old(self).block_states.view().contains_key(pos) ==> same_kind(
                old(self).block_states.view()[pos],
                final(self).block_states.view()[pos],
            ) && moved(
                old(self).block_states.view()[pos].items()@,
                final(self).block_states.view()[pos].items()@,
                t.item,
                transfer_delta(*t, TransferItemSource::Block(pos)),
            ),
    {
        let ghost g0_inv = self.inventory@;
        let ghost g0_bs = self.block_states.view();
        let ghost bs0 = self.block_states;
        proof { crate::data::lemma_item_index_injective(t.item, t.item); }
        match t.source {
            TransferItemSource::Inventory => self.inventory.remove_item(t.item, t.count),
            TransferItemSource::Block(p) => self.block_states.remove_item(&p, t.item, t.count),
        }
        let ghost g1_inv = self.inventory@;
        let ghost g1_bs = self.block_states.view();
        proof {
            match t.dest {
                TransferItemSource::Block(p) => {
                    self.block_states.lemma_stored_items_wf(p);
                    assert(g0_bs.contains_key(p));
                    bs0.lemma_stored_items_wf(p);
                    if t.source == t.dest {
                        assert(count_of(g1_bs[p].items()@, t.item) == count_of(g0_bs[p].items()@, t.item) - t.count);
                    } else {
                        assert(g1_bs[p] == g0_bs[p]);
                    }
                },
                TransferItemSource::Inventory => {
                    if t.source == t.dest {
                        assert(count_of(g1_inv, t.item) == count_of(g0_inv, t.item) - t.count);
                    } else {
                        assert(g1_inv == g0_inv);
                    }
                },
            }
        }
        match t.dest {
            TransferItemSource::Inventory => self.inventory.add_item(t.item, t.count),
            TransferItemSource::Block(p) => self.block_states.add_item(&p, t.item, t.count),
        }
        proof {
            assert(self.inventory@ =~= g0_inv.update(
                t.item.index_of() as int,
                (count_of(g0_inv, t.item) + transfer_delta(*t, TransferItemSource::Inventory)) as usize,
            ));
            assert forall|pos: BlockPos| #[trigger] g0_bs.contains_key(pos) implies same_kind(g0_bs[pos], self.block_states.view()[pos]) && moved(
                g0_bs[pos].items()@,
                self.block_states.view()[pos].items()@,
                t.item,
                transfer_delta(*t, TransferItemSource::Block(pos)),
            ) by {
                self.block_states.lemma_stored_items_wf(pos);
                bs0.lemma_stored_items_wf(pos);
                let here = TransferItemSource::Block(pos);
                let c0 = g0_bs[pos].items()@;
                let c1 = g1_bs[pos].items()@;
                let c2 = self.block_states.view()[pos].items()@;
                assert(g1_bs.contains_key(pos));
                if t.source == here {
                    assert(c1 == c0.update(t.item.index_of() as int, (count_of(c0, t.item) - t.count) as usize));
                } else {
                    assert(g1_bs[pos] == g0_bs[pos]);
                }
                if t.dest == here {
                    assert(c2 == c1.update(t.item.index_of() as int, (count_of(c1, t.item) + t.count) as usize));
                } else {
                    assert(self.block_states.view()[pos] == g1_bs[pos]);
                }
                assert(c0.len() == ItemType::COUNT);
                assert(self.block_states.view()[pos].items()@ =~= g0_bs[pos].items()@.update(
                    t.item.index_of() as int,
                    (count_of(g0_bs[pos].items()@, t.item) + transfer_delta(*t, TransferItemSource::Block(pos))) as usize,
                ));
            }
        }
    }

    /// A right click on `target`: a block with an interface opens it; on any other block the
    /// held item is placed at `adjacent`, whose block is currently `current` (see
    /// `place_block`). Returns the message that follows, if any.
    pub fn handle_right_click(&mut self, target: &Block, adjacent: BlockPos, current: BlockType) -> (next: Option<GameMessage>)
        requires
            old(self).wf(),
            target.block_type.spec_interactable() ==> old(self).block_states.view().contains_key(
                target.block_pos,
            ),
        ensures
            final(self).wf(),
            final(self).hotbar == old(self).hotbar,
            final(self).interaction_mode == old(self).interaction_mode,
            final(self).controls == old(self).controls,
            final(self).block_states == old(self).block_states,
            if target.block_type.spec_interactable() {
                &&& final(self).inventory == old(self).inventory
                &&& next == Some(GameMessage::SetInteractionMode(
                    InteractionMode::Block(old(self).block_states.view()[target.block_pos].pos()),
                ))
            } else {
                let held = spec_held_item(old(self).inventory@, old(self).hotbar.slots@, old(self).hotbar.selected);
                &&& match spec_place(held, adjacent, current) {
                    Some(p) => next == Some(GameMessage::PlaceBlock(p)),
                    None => next is None,
                }
                &&& match (spec_place(held, adjacent, current), old(self).hotbar.slots@[old(self).hotbar.selected as int]) {
                    (Some(_), Some(item)) => final(self).inventory@ == old(self).inventory@.update(
                        item.index_of() as int,
                        (count_of(old(self).inventory@, item) - 1) as usize,
                    ),
                    _ => final(self).inventory@ == old(self).inventory@,
                }
            },
    {
        if target.block_type.interactable() {
            match self.block_states.get(&target.block_pos) {
                Some(state) => match state.on_right_click() {
                    Some(mode) => Some(GameMessage::SetInteractionMode(mode)),
                    None => None,
                },
                None => None,
            }
        } else {
            match place_block(&mut self.inventory, &self.hotbar, adjacent, current) {
                Some(p) => Some(GameMessage::PlaceBlock(p)),
                None => None,
            }
        }
    }

    /// A turn of the mouse wheel, by `step` (only its sign counts): while playing, a non-zero
    /// step scrolls the hotbar, up (to the next slot) for a negative step and down for a
    /// positive one; otherwise nothing changes.
    pub fn handle_mouse_wheel(&mut self, step: i32)
        requires
            old(self).wf(),
        ensures
            final(self).wf(),
            final(self).hotbar.slots == old(self).hotbar.slots,
            final(self).hotbar.selected == if old(self).interaction_mode == InteractionMode::Game
                && step != 0 {
                spec_scroll(old(self).hotbar.selected, step < 0)
            } else {
                old(self).hotbar.selected
            },
            final(self).inventory == old(self).inventory,
            final(self).interaction_mode == old(self).interaction_mode,
            final(self).controls == old(self).controls,
            final(self).block_states == old(self).block_states,
    {
        if matches!(self.interaction_mode, InteractionMode::Game) && step != 0 {
            self.hotbar.scroll(step < 0);
            proof {
                crate::hotbar::lemma_scroll_stays_in_range(old(self).hotbar.selected, step < 0);
            }
        }
    }

    /// Handle one message: update the state, and hand back the message it leads to, if any.
    pub fn handle_message(&mut self, m: GameMessage) -> (next: Option<GameMessage>)
        requires
            old(self).wf(),
            old(self).handles(m),
        ensures
            final(self).wf(),
            match m {
                GameMessage::ItemFavourited(f) => next is None && final(self).hotbar.slots@
                    == old(self).hotbar.slots@.update(f.slot as int, Some(f.item))
                    && final(self).hotbar.selected == old(self).hotbar.selected
                    && final(self).inventory == old(self).inventory
                    && final(self).interaction_mode == old(self).interaction_mode
                    && final(self).controls == old(self).controls
                    && final(self).block_states == old(self).block_states,
                GameMessage::SetInteractionMode(mode) => next is None
                    && final(self).interaction_mode == mode
                    && final(self).controls == spec_handle_mode(old(self).controls, mode)
                    && final(self).inventory == old(self).inventory
                    && final(self).hotbar == old(self).hotbar
                    && final(self).block_states == old(self).block_states,
                GameMessage::TransferItemRequest(r) => *final(self) == *old(self) && match spec_route_transfer(r, old(self).interaction_mode) {
                    Some(t) => next matches Some(GameMessage::TransferItem(t2)) && t2 == t,
                    None => next is None,
                },
                GameMessage::TransferItem(t) => next is None
                    && final(self).hotbar == old(self).hotbar
                    && final(self).interaction_mode == old(self).interaction_mode
                    && final(self).controls == old(self).controls
                    && moved(old(self).inventory@, final(self).inventory@, t.item, transfer_delta(t, TransferItemSource::Inventory))
                    && final(self).block_states.view().dom() == old(self).block_states.view().dom()
                    && forall|pos: BlockPos| #[trigger] old(self).block_states.view().contains_key(pos) ==> same_kind(
                        old(self).block_states.view()[pos],
                        final(self).block_states.view()[pos],
                    ) && moved(
                        old(self).block_states.view()[pos].items()@,
                        final(self).block_states.view()[pos].items()@,
                        t.item,
                        transfer_delta(t, TransferItemSource::Block(pos)),
                    ),
                GameMessage::BreakBlock(pos) => next is None
                    && final(self).block_states.view() == old(self).block_states.view().remove(pos)
                    && final(self).inventory == old(self).inventory
                    && final(self).hotbar == old(self).hotbar
                    && final(self).interaction_mode == old(self).interaction_mode
                    && final(self).controls == old(self).controls,
                GameMessage::PlaceBlock(p) => next is None
                    && final(self).inventory == old(self).inventory
                    && final(self).hotbar == old(self).hotbar
                    && final(self).interaction_mode == old(self).interaction_mode
                    && final(self).controls == old(self).controls
                    && placed_state(old(self).block_states.view(), final(self).block_states.view(), p),
                GameMessage::SetCraftingRecipe(s) => next is None
                    && final(self).inventory == old(self).inventory
                    && final(self).hotbar == old(self).hotbar
                    && final(self).interaction_mode == old(self).interaction_mode
                    && final(self).controls == old(self).controls
                    && final(self).block_states.view().dom() == old(self).block_states.view().dom()
                    && (forall|q: BlockPos| q != s.block && #[trigger] old(self).block_states.view().contains_key(q)
                        ==> final(self).block_states.view()[q] == old(self).block_states.view()[q])
                    && (old(self).block_states.view().contains_key(s.block) ==> recipe_set(
                        old(self).block_states.view()[s.block],
                        final(self).block_states.view()[s.block],
                        s.recipe@,
                    )),
            },
    {
        match m {
            GameMessage::ItemFavourited(f) => {
                self.hotbar.set_favourite(f.slot, f.item);
                None
            },
            GameMessage::SetInteractionMode(mode) => {
                self.interaction_mode = mode;
                self.controls.handle_mode(&mode);
                None
            },
            GameMessage::TransferItemRequest(r) => {
                match route_transfer_request(&r, &self.interaction_mode) {
                    Some(t) => Some(GameMessage::TransferItem(t)),
                    None => None,
                }
            },
            GameMessage::TransferItem(t) => {
                self.transfer(&t);
                None
            },
            GameMessage::BreakBlock(pos) => {
                self.block_states.remove(&pos);
                None
            },
            GameMessage::PlaceBlock(p) => {
                match create_block_state(&p.pos, p.block) {
                    Some(st) => self.block_states.insert(p.pos, st),
                    None => {},
                }
                None
            },
            GameMessage::SetCraftingRecipe(s) => {
                self.block_states.set_recipe(&s.block, &s.recipe);
                None
            },
        }
    }
}

/// After placing: a chest or crafter gets a fresh empty state at its position, any other
/// block leaves the block states as they were.
pub open spec fn placed_state(
    before: Map<BlockPos, BlockState>,
    after: Map<BlockPos, BlockState>,
    p: PlaceBlockMessage,
) -> bool {
    match p.block {
        BlockType::Chest => after.dom() == before.dom().insert(p.pos) && (forall|q: BlockPos|
            q != p.pos && #[trigger] before.contains_key(q) ==> after[q] == before[q]) && (
        after[p.pos] matches BlockState::Chest(c) && c.pos == p.pos && c.items@ == Seq::new(
            ItemType::COUNT as nat,
            |i: int| 0usize,
        )),
        BlockType::Crafter => after.dom() == before.dom().insert(p.pos) && (forall|q: BlockPos|
            q != p.pos && #[trigger] before.contains_key(q) ==> after[q] == before[q]) && (
        after[p.pos] matches BlockState::Crafter(c) && c.pos == p.pos && c.recipe is None
            && c.inventory@ == Seq::new(ItemType::COUNT as nat, |i: int| 0usize)),
        _ => after == before,
    }
}

/// A transfer keeps the total count of its item over all stores: what leaves the source
/// arrives at the destination.
pub proof fn lemma_transfer_deltas_cancel(t: TransferItemMessage)
    ensures
        transfer_delta(t, t.source) + (if t.dest != t.source {
            transfer_delta(t, t.dest)
        } else {
            0
        }) == 0,
        forall|at: TransferItemSource| at != t.source && at != t.dest ==> #[trigger] transfer_delta(t, at) == 0,
{
}

} // verus!
