use std::collections::VecDeque;
use vstd::prelude::*;

use crate::data::{BlockType, ItemType};
use crate::geometry::BlockPos;
use crate::recipe::Recipe;
use crate::InteractionMode;

verus! {

/// Where items move from or to: the player's inventory or a block's store.
#[derive(Debug, Clone, Copy, PartialEq, Eq, Structural)]
pub enum TransferItemSource {
    Inventory,
    Block(BlockPos),
}

/// The player asked to move items out of `source` into whatever the other side is.
#[derive(Debug, Clone, Copy, PartialEq, Eq, Structural)]
pub struct TransferItemRequestMessage {
    pub item: ItemType,
    pub count: usize,
    pub source: TransferItemSource,
}

/// Move `count` of `item` from `source` to `dest`.
#[derive(Debug, Clone, Copy, PartialEq, Eq, Structural)]
pub struct TransferItemMessage {
    pub source: TransferItemSource,
    pub dest: TransferItemSource,
    pub item: ItemType,
    pub count: usize,
}

/// The player put `item` into hotbar slot `slot`.
#[derive(Debug, Clone, Copy, PartialEq, Eq, Structural)]
pub struct ItemFavouritedMessage {
    pub item: ItemType,
    pub slot: usize,
}

/// Place a block of type `block` at `pos`.
#[derive(Debug, Clone, Copy, PartialEq, Eq, Structural)]
pub struct PlaceBlockMessage {
    pub pos: BlockPos,
    pub block: BlockType,
}

/// Make the crafter at `block` work on `recipe`.
pub struct SetCraftingRecipeMessage {
    pub block: BlockPos,
    pub recipe: Recipe,
}

/// A first-in, first-out queue of messages.
pub struct MessageQueue<M> {
    queue: VecDeque<M>,
}

impl<M> View for MessageQueue<M> {
    type V = Seq<M>;

    /// The pending messages, oldest first.
    closed spec fn view(&self) -> Seq<M> {
        self.queue@
    }
}

impl<M> MessageQueue<M> {
    /// An empty queue.
    pub fn new() -> (q: Self)
        ensures
            q@ == Seq::<M>::empty(),
    {
        MessageQueue { queue: VecDeque::new() }
    }

    /// Add a message behind all pending ones.
    pub fn send(&mut self, message: M)
        ensures
            final(self)@ == old(self)@.push(message),
    {
        self.queue.push_back(message);
    }

    /// Take the oldest pending message, if any.
    pub fn take(&mut self) -> (m: Option<M>)
        ensures
            old(self)@.len() == 0 ==> m is None && final(self)@ == old(self)@,
            old(self)@.len() > 0 ==> m == Some(old(self)@[0]) && final(self)@ == old(
                self,
            )@.drop_first(),
    {
        self.queue.pop_front()
    }
}

/// Messages come out in the order they were sent: after sending `m` to a queue holding
/// `pending`, the messages taken are those of `pending`, then `m`.
pub proof fn lemma_queue_is_fifo<M>(pending: Seq<M>, m: M)
    ensures
        pending.len() > 0 ==> pending.push(m)[0] == pending[0] && pending.push(m).drop_first()
            == pending.drop_first().push(m),
        pending.len() == 0 ==> pending.push(m)[0] == m && pending.push(m).drop_first()
            == Seq::<M>::empty(),
{
    if pending.len() > 0 {
        assert(pending.push(m).drop_first() =~= pending.drop_first().push(m));
    } else {
        assert(pending.push(m).drop_first() =~= Seq::<M>::empty());
    }
}

/// The transfer a request stands for, given what the player has open: from the inventory
/// into the open block, or from the open block into the inventory. Other requests stand
/// for no transfer.
pub open spec fn spec_route_transfer(
    request: TransferItemRequestMessage,
    mode: InteractionMode,
) -> Option<TransferItemMessage> {
    match (request.source, mode) {
        (TransferItemSource::Inventory, InteractionMode::Block(target)) => Some(
            TransferItemMessage {
                source: TransferItemSource::Inventory,
                dest: TransferItemSource::Block(target),
                item: request.item,
                count: request.count,
            },
        ),
        (TransferItemSource::Block(source), InteractionMode::Block(target)) => if source
            == target {
            Some(
                TransferItemMessage {
                    source: TransferItemSource::Block(source),
                    dest: TransferItemSource::Inventory,
                    item: request.item,
                    count: request.count,
                },
            )
        } else {
            None
        },
        _ => None,
    }
}

/// The transfer a request stands for, given what the player has open.
pub fn route_transfer_request(
    request: &TransferItemRequestMessage,
    mode: &InteractionMode,
) -> (t: Option<TransferItemMessage>)
    ensures
        t == spec_route_transfer(*request, *mode),
{
    match (request.source, *mode) {
        (TransferItemSource::Inventory, InteractionMode::Block(target)) => Some(
            TransferItemMessage {
                source: TransferItemSource::Inventory,
                dest: TransferItemSource::Block(target),
                item: request.item,
                count: request.count,
            },
        ),
        (TransferItemSource::Block(source), InteractionMode::Block(target)) => {
            if source == target {
                Some(
                    TransferItemMessage {
                        source: TransferItemSource::Block(source),
                        dest: TransferItemSource::Inventory,
                        item: request.item,
                        count: request.count,
                    },
                )
            } else {
                None
            }
        },
        _ => None,
    }
}

/// A routed transfer never moves items from a place to itself, and keeps the item and count.
pub proof fn lemma_route_moves_between_two_places(
    request: TransferItemRequestMessage,
    mode: InteractionMode,
)
    ensures
        spec_route_transfer(request, mode) matches Some(t) ==> t.source != t.dest && t.item
            == request.item && t.count == request.count && t.source == request.source,
{
}

/// The mode the escape key switches to: the game opens the inventory, any open interface
/// closes back to the game.
pub open spec fn spec_mode_after_escape(mode: InteractionMode) -> InteractionMode {
    match mode {
        InteractionMode::Game => InteractionMode::UI,
        _ => InteractionMode::Game,
    }
}

/// The mode the escape key switches to.
pub fn mode_after_escape(mode: &InteractionMode) -> (m: InteractionMode)
    ensures
        m == spec_mode_after_escape(*mode),
{
    match mode {
        InteractionMode::Game => InteractionMode::UI,
        InteractionMode::UI | InteractionMode::Block(_) => InteractionMode::Game,
    }
}

/// Pressing escape twice from the game comes back to the game.
pub proof fn lemma_escape_twice_from_game()
    ensures
        spec_mode_after_escape(spec_mode_after_escape(InteractionMode::Game))
            == InteractionMode::Game,
{
}

/// A mouse button, as far as the game tells them apart.
#[derive(Debug, Clone, Copy, PartialEq, Eq, Structural)]
pub enum MouseButton {
    Left,
    Right,
    Other,
}

/// What a mouse click does to the world.
#[derive(Debug, Clone, Copy, PartialEq, Eq, Structural)]
pub enum ClickAction {
    /// Break the targeted block.
    Break,
    /// Open the targeted block's interface, or place the held block.
    Use,
}

/// What a mouse button event does: only while playing (no interface open), a press of the
/// left button breaks and a press of the right button uses; anything else does nothing.
pub open spec fn spec_click_action(mode: InteractionMode, button: MouseButton, pressed: bool) -> Option<ClickAction> {
    if mode == InteractionMode::Game && pressed {
        match button {
            MouseButton::Left => Some(ClickAction::Break),
            MouseButton::Right => Some(ClickAction::Use),
            MouseButton::Other => None,
        }
    } else {
        None
    }
}

/// What a mouse button event does in this mode.
pub fn click_action(mode: &InteractionMode, button: MouseButton, pressed: bool) -> (a: Option<ClickAction>)
    ensures
        a == spec_click_action(*mode, button, pressed),
{
    if !matches!(mode, InteractionMode::Game) || !pressed {
        return None;
    }
    match button {
        MouseButton::Left => Some(ClickAction::Break),
        MouseButton::Right => Some(ClickAction::Use),
        MouseButton::Other => None,
    }
}

} // verus!
