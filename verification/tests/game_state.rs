use game_engine::block_states::BlockStates;
use game_engine::blocks::BlockState;
use game_engine::data::{BlockType, ItemType};
use game_engine::geometry::{Block, BlockPos, Point3};
use game_engine::messages::{
    ItemFavouritedMessage, PlaceBlockMessage, SetCraftingRecipeMessage, TransferItemMessage,
    TransferItemRequestMessage, TransferItemSource,
};
use game_engine::player::{starting_hotbar, starting_inventory};
use game_engine::recipe::recipes;
use game_engine::state::{GameMessage, GameState};
use game_engine::InteractionMode;

fn pos(x: i32) -> BlockPos {
    BlockPos(Point3 { x, y: 0, z: 0 })
}

fn new_game() -> GameState {
    GameState::new(starting_inventory(), starting_hotbar())
}

#[test]
fn block_states_map() {
    let mut b = BlockStates::new();
    assert!(!b.contains(&pos(1)));
    b.insert(pos(1), BlockState::Chest(game_engine::blocks::ChestState::new(&pos(1))));
    b.insert(pos(2), BlockState::Crafter(game_engine::blocks::CrafterState::new(&pos(2))));
    assert!(b.contains(&pos(1)));
    b.add_item(&pos(1), ItemType::Coal, 3);
    b.remove_item(&pos(1), ItemType::Coal, 1);
    assert_eq!(b.get(&pos(1)).unwrap().as_container().count(ItemType::Coal), 2);
    assert_eq!(b.positions().len(), 2);
    b.remove(&pos(1));
    assert!(!b.contains(&pos(1)));
    assert!(b.take(&pos(2)).is_some());
    assert!(b.positions().is_empty());
}

#[test]
fn placing_and_breaking_stateful_blocks() {
    let mut g = new_game();
    assert!(g.handle_message(GameMessage::PlaceBlock(PlaceBlockMessage { pos: pos(5), block: BlockType::Chest })).is_none());
    assert!(g.block_states.contains(&pos(5)));
    g.handle_message(GameMessage::PlaceBlock(PlaceBlockMessage { pos: pos(6), block: BlockType::Stone }));
    assert!(!g.block_states.contains(&pos(6)));
    g.handle_message(GameMessage::BreakBlock(pos(5)));
    assert!(!g.block_states.contains(&pos(5)));
}

#[test]
fn transfers_between_inventory_and_chest() {
    let mut g = new_game();
    g.handle_message(GameMessage::PlaceBlock(PlaceBlockMessage { pos: pos(1), block: BlockType::Chest }));
    g.handle_message(GameMessage::SetInteractionMode(InteractionMode::Block(pos(1))));
    assert!(!g.controls.enabled());

    let request = TransferItemRequestMessage { item: ItemType::Dirt, count: 2, source: TransferItemSource::Inventory };
    let next = g.handle_message(GameMessage::TransferItemRequest(request)).unwrap();
    assert!(g.can_handle(&next));
    assert!(g.handle_message(next).is_none());
    assert_eq!(g.inventory.count(ItemType::Dirt), 3);
    assert_eq!(g.count_at(&TransferItemSource::Block(pos(1)), ItemType::Dirt), Some(2));

    let back = TransferItemMessage {
        source: TransferItemSource::Block(pos(1)),
        dest: TransferItemSource::Inventory,
        item: ItemType::Dirt,
        count: 1,
    };
    g.handle_message(GameMessage::TransferItem(back));
    assert_eq!(g.inventory.count(ItemType::Dirt), 4);
    assert_eq!(g.count_at(&TransferItemSource::Block(pos(1)), ItemType::Dirt), Some(1));

    let too_many = TransferItemMessage { count: 5, ..back };
    assert!(!g.can_handle(&GameMessage::TransferItem(too_many)));
    let missing = TransferItemMessage { source: TransferItemSource::Block(pos(9)), ..back };
    assert!(!g.can_handle(&GameMessage::TransferItem(missing)));
    assert_eq!(g.count_at(&TransferItemSource::Block(pos(9)), ItemType::Dirt), None);

    g.handle_message(GameMessage::SetInteractionMode(InteractionMode::Game));
    assert!(g.controls.enabled());
    let request = TransferItemRequestMessage { item: ItemType::Dirt, count: 1, source: TransferItemSource::Inventory };
    assert!(g.handle_message(GameMessage::TransferItemRequest(request)).is_none());
}

#[test]
fn favourites_and_recipes() {
    let mut g = new_game();
    assert!(!g.can_handle(&GameMessage::ItemFavourited(ItemFavouritedMessage { item: ItemType::Coal, slot: 10 })));
    g.handle_message(GameMessage::ItemFavourited(ItemFavouritedMessage { item: ItemType::Coal, slot: 9 }));
    assert_eq!(g.hotbar.slots[9], Some(ItemType::Coal));

    g.handle_message(GameMessage::PlaceBlock(PlaceBlockMessage { pos: pos(3), block: BlockType::Crafter }));
    let recipe = recipes().remove(3);
    g.handle_message(GameMessage::SetCraftingRecipe(SetCraftingRecipeMessage { block: pos(3), recipe }));
    assert!(!g.block_states.is_working(&pos(3)));
    g.block_states.add_item(&pos(3), ItemType::Iron, 1);
    g.block_states.add_item(&pos(3), ItemType::Coal, 2);
    assert!(g.block_states.is_working(&pos(3)));
    g.block_states.craft_once(&pos(3));
    assert_eq!(g.count_at(&TransferItemSource::Block(pos(3)), ItemType::Steel), Some(1));
    assert_eq!(g.count_at(&TransferItemSource::Block(pos(3)), ItemType::Coal), Some(1));
    assert!(!g.block_states.is_working(&pos(3)));
}

#[test]
fn right_click_opens_or_places() {
    let mut g = new_game();
    // Nothing held in slot 0: nothing is placed.
    let stone = Block { block_pos: pos(1), block_type: BlockType::Stone };
    assert!(g.handle_right_click(&stone, pos(2), BlockType::Air).is_none());

    // Stone held: it is placed on air, not on dirt.
    g.hotbar.scroll(true);
    g.hotbar.scroll(true);
    assert!(g.handle_right_click(&stone, pos(2), BlockType::Dirt).is_none());
    assert_eq!(g.inventory.count(ItemType::Stone), 12);
    match g.handle_right_click(&stone, pos(2), BlockType::Air) {
        Some(GameMessage::PlaceBlock(p)) => {
            assert_eq!(p.pos, pos(2));
            assert_eq!(p.block, BlockType::Stone);
        }
        _ => panic!("expected a placement"),
    }
    assert_eq!(g.inventory.count(ItemType::Stone), 11);

    // A chest opens its interface, and nothing is placed.
    g.handle_message(GameMessage::PlaceBlock(PlaceBlockMessage { pos: pos(7), block: BlockType::Chest }));
    let chest = Block { block_pos: pos(7), block_type: BlockType::Chest };
    match g.handle_right_click(&chest, pos(8), BlockType::Air) {
        Some(GameMessage::SetInteractionMode(mode)) => assert_eq!(mode, InteractionMode::Block(pos(7))),
        _ => panic!("expected the chest to open"),
    }
    assert_eq!(g.inventory.count(ItemType::Stone), 11);
}

#[test]
fn mouse_wheel_scrolls_only_while_playing() {
    let mut g = new_game();
    g.handle_mouse_wheel(-3);
    assert_eq!(g.hotbar.selected, 1);
    g.handle_mouse_wheel(0);
    assert_eq!(g.hotbar.selected, 1);
    g.handle_mouse_wheel(2);
    g.handle_mouse_wheel(1);
    assert_eq!(g.hotbar.selected, 9);
    g.handle_message(GameMessage::SetInteractionMode(InteractionMode::UI));
    g.handle_mouse_wheel(-1);
    assert_eq!(g.hotbar.selected, 9);
}
