use game_engine::blocks::{create_block_state, BlockState, ChestState, CrafterState, StatefulBlock};
use game_engine::container::{Container, Inventory};
use game_engine::data::{BlockType, ItemType};
use game_engine::game::{break_block, can_break, place_block, transfer_item};
use game_engine::geometry::{Block, BlockPos, Point3};
use game_engine::hotbar::{get_breaking_strength, get_held_item, Hotbar};
use game_engine::recipe::{make_recipe, recipes};
use game_engine::InteractionMode;

fn pos(x: i32, y: i32, z: i32) -> BlockPos {
    BlockPos(Point3 { x, y, z })
}

fn starting_inventory() -> Inventory {
    let mut inventory = Inventory::new();
    inventory.add_item(ItemType::Dirt, 5);
    inventory.add_item(ItemType::Stone, 12);
    inventory.add_item(ItemType::Coal, 12);
    inventory.add_item(ItemType::Iron, 12);
    inventory.add_item(ItemType::Copper, 12);
    inventory.add_item(ItemType::Tin, 12);
    inventory.add_item(ItemType::Bronze, 12);
    inventory.add_item(ItemType::Steel, 12);
    inventory.add_item(ItemType::MagicMetal, 12);
    inventory.add_item(ItemType::Chest, 12);
    inventory.add_item(ItemType::Crafter, 12);
    inventory
}

#[test]
fn add_and_remove_items() {
    let mut c = Container::new();
    assert_eq!(c.count(ItemType::Stone), 0);
    c.add_item(ItemType::Stone, 4);
    c.add_item(ItemType::Stone, 3);
    assert_eq!(c.count(ItemType::Stone), 7);
    c.remove_item(ItemType::Stone, 5);
    assert_eq!(c.count(ItemType::Stone), 2);
    assert_eq!(c.count(ItemType::Dirt), 0);
}

#[test]
fn add_then_remove_gives_back_the_counts() {
    let mut c = starting_inventory();
    let before: Vec<usize> = (0..20).map(|i| *c.items.get_at(i)).collect();
    c.add_item(ItemType::Tin, 9);
    c.remove_item(ItemType::Tin, 9);
    let after: Vec<usize> = (0..20).map(|i| *c.items.get_at(i)).collect();
    assert_eq!(before, after);
}

#[test]
fn recipe_table_has_nine_entries() {
    let rs = recipes();
    assert_eq!(rs.len(), 9);
    assert_eq!(rs[0].inputs, vec![(ItemType::Stone, 4)]);
    assert_eq!(rs[0].output, (ItemType::DarkStone, 1));
    assert_eq!(rs[1].inputs, vec![(ItemType::Dirt, 1), (ItemType::Stone, 2)]);
    assert_eq!(rs[8].output, (ItemType::MagicMetalPickaxe, 1));
}

#[test]
fn craftable_recipes_follow_the_inventory() {
    let empty = Container::new();
    assert!(empty.get_craftable_recipes().is_empty());

    let mut c = Container::new();
    c.add_item(ItemType::Stone, 4);
    let rs = c.get_craftable_recipes();
    assert_eq!(rs.len(), 1);
    assert_eq!(rs[0].output, (ItemType::DarkStone, 1));

    c.add_item(ItemType::Dirt, 1);
    let rs = c.get_craftable_recipes();
    let outputs: Vec<ItemType> = rs.iter().map(|r| r.output.0).collect();
    assert_eq!(outputs, vec![ItemType::DarkStone, ItemType::MossyStone]);

    let all = starting_inventory().get_craftable_recipes();
    assert_eq!(all.len(), 9);
}

#[test]
fn crafting_consumes_inputs_and_adds_output() {
    let mut c = Container::new();
    c.add_item(ItemType::Copper, 3);
    c.add_item(ItemType::Tin, 1);
    let bronze = &recipes()[2];
    assert!(c.can_craft(bronze));
    c.craft_recipe(bronze);
    assert_eq!(c.count(ItemType::Copper), 2);
    assert_eq!(c.count(ItemType::Tin), 0);
    assert_eq!(c.count(ItemType::Bronze), 2);
    assert!(!c.can_craft(bronze));
}

#[test]
fn crafting_can_use_its_output_as_an_input() {
    let mut c = Container::new();
    c.add_item(ItemType::Stone, 5);
    let r = make_recipe(vec![(ItemType::Stone, 2)], (ItemType::Stone, 1));
    c.craft_recipe(&r);
    assert_eq!(c.count(ItemType::Stone), 4);
}

#[test]
fn hotbar_scrolls_and_wraps() {
    let mut h = Hotbar::default();
    assert_eq!(h.selected, 0);
    h.scroll(false);
    assert_eq!(h.selected, 9);
    h.scroll(true);
    assert_eq!(h.selected, 0);
    for _ in 0..10 {
        h.scroll(true);
    }
    assert_eq!(h.selected, 0);
    h.scroll(true);
    h.scroll(true);
    assert_eq!(h.selected, 2);
}

#[test]
fn hotbar_favourites_and_held_item() {
    let inventory = starting_inventory();
    let mut h = Hotbar::new();
    h.set_favourite(4, ItemType::Dirt);
    h.set_favourite(2, ItemType::Stone);
    assert_eq!(h.slots[4], Some(ItemType::Dirt));
    assert_eq!(get_held_item(&inventory, &h), None);
    h.selected = 2;
    assert_eq!(get_held_item(&inventory, &h), Some((ItemType::Stone, 12)));
    h.selected = 4;
    assert_eq!(get_held_item(&inventory, &h), Some((ItemType::Dirt, 5)));
}

#[test]
fn breaking_strength_needs_a_held_tool() {
    let mut inventory = Container::new();
    let mut h = Hotbar::new();
    h.set_favourite(0, ItemType::IronPickaxe);
    assert_eq!(get_breaking_strength(&inventory, &h), 0);
    inventory.add_item(ItemType::IronPickaxe, 1);
    assert_eq!(get_breaking_strength(&inventory, &h), 300);
    h.set_favourite(0, ItemType::Stone);
    inventory.add_item(ItemType::Stone, 1);
    assert_eq!(get_breaking_strength(&inventory, &h), 0);
}

#[test]
fn breaking_blocks() {
    assert!(can_break(BlockType::Dirt, 0));
    assert!(!can_break(BlockType::Stone, 0));
    assert!(can_break(BlockType::Iron, 300));
    assert!(!can_break(BlockType::MagicMetal, 300));
    assert!(!can_break(BlockType::Air, u32::MAX));

    let mut inventory = Container::new();
    let target = Block { block_pos: pos(1, 2, 3), block_type: BlockType::Copper };
    assert_eq!(break_block(Some(target), 50, &mut inventory), None);
    assert_eq!(inventory.count(ItemType::Copper), 0);
    assert_eq!(break_block(Some(target), 100, &mut inventory), Some(pos(1, 2, 3)));
    assert_eq!(inventory.count(ItemType::Copper), 1);
    assert_eq!(break_block(None, 500, &mut inventory), None);
}

#[test]
fn placing_blocks() {
    let mut inventory = Container::new();
    inventory.add_item(ItemType::Dirt, 1);
    inventory.add_item(ItemType::CopperPickaxe, 1);
    let mut h = Hotbar::new();
    h.set_favourite(0, ItemType::Dirt);
    h.set_favourite(1, ItemType::CopperPickaxe);

    // Not air: nothing happens.
    assert_eq!(place_block(&mut inventory, &h, pos(0, 1, 0), BlockType::Stone), None);
    assert_eq!(inventory.count(ItemType::Dirt), 1);

    let placed = place_block(&mut inventory, &h, pos(0, 1, 0), BlockType::Air).unwrap();
    assert_eq!(placed.pos, pos(0, 1, 0));
    assert_eq!(placed.block, BlockType::Dirt);
    assert_eq!(inventory.count(ItemType::Dirt), 0);

    // None left.
    assert_eq!(place_block(&mut inventory, &h, pos(0, 1, 0), BlockType::Air), None);

    // A tool is not a block.
    h.selected = 1;
    assert_eq!(place_block(&mut inventory, &h, pos(0, 1, 0), BlockType::Air), None);
    assert_eq!(inventory.count(ItemType::CopperPickaxe), 1);

    // Empty slot.
    h.selected = 5;
    assert_eq!(place_block(&mut inventory, &h, pos(0, 1, 0), BlockType::Air), None);
}

#[test]
fn transfers_keep_totals() {
    let mut a = Container::new();
    let mut b = Container::new();
    a.add_item(ItemType::Coal, 5);
    b.add_item(ItemType::Coal, 1);
    transfer_item(&mut a, &mut b, ItemType::Coal, 3);
    assert_eq!(a.count(ItemType::Coal), 2);
    assert_eq!(b.count(ItemType::Coal), 4);
}

#[test]
fn block_states() {
    let p = pos(4, 5, 6);
    let chest = ChestState::new(&p);
    assert_eq!(chest.on_right_click(), Some(InteractionMode::Block(p)));
    assert_eq!(chest.items.count(ItemType::Dirt), 0);

    let mut crafter = CrafterState::new(&p);
    assert!(crafter.recipe.is_none());
    assert!(!crafter.is_working());
    crafter.set_recipe(&recipes()[0]);
    assert!(!crafter.is_working());
    crafter.inventory.add_item(ItemType::Stone, 9);
    assert!(crafter.is_working());
    crafter.craft_once();
    crafter.craft_once();
    assert_eq!(crafter.inventory.count(ItemType::Stone), 1);
    assert_eq!(crafter.inventory.count(ItemType::DarkStone), 2);
    assert!(!crafter.is_working());

    let mut state = create_block_state(&p, BlockType::Chest).unwrap();
    assert_eq!(state.on_right_click(), Some(InteractionMode::Block(p)));
    state.add_item(ItemType::Tin, 2);
    state.remove_item(ItemType::Tin, 1);
    assert_eq!(state.as_container().count(ItemType::Tin), 1);
    assert!(matches!(create_block_state(&p, BlockType::Crafter), Some(BlockState::Crafter(_))));
    assert!(create_block_state(&p, BlockType::Stone).is_none());
}

#[test]
fn nonempty_items_in_variant_order() {
    let mut c = Container::new();
    assert!(c.nonempty_items().is_empty());
    c.add_item(ItemType::Tin, 3);
    c.add_item(ItemType::Dirt, 1);
    c.add_item(ItemType::Stone, 2);
    c.remove_item(ItemType::Stone, 2);
    assert_eq!(c.nonempty_items(), vec![(ItemType::Dirt, 1), (ItemType::Tin, 3)]);
}

#[test]
fn item_kinds_from_their_index() {
    assert_eq!(ItemType::from_index(0), ItemType::Dirt);
    assert_eq!(ItemType::from_index(8), ItemType::Bronze);
    assert_eq!(ItemType::from_index(19), ItemType::Crafter);
}

#[test]
fn hotbar_contents_show_counts() {
    let inventory = game_engine::player::starting_inventory();
    let hotbar = game_engine::player::starting_hotbar();
    let shown = game_engine::hotbar::hotbar_contents(&inventory, &hotbar);
    assert_eq!(shown.len(), 10);
    assert_eq!(shown[2], Some((ItemType::Stone, 12)));
    assert_eq!(shown[4], Some((ItemType::Dirt, 5)));
    assert_eq!(shown[0], None);
}

#[test]
fn player_starting_kit() {
    let inventory = game_engine::player::starting_inventory();
    assert_eq!(inventory.count(ItemType::Dirt), 5);
    assert_eq!(inventory.count(ItemType::Crafter), 12);
    assert_eq!(inventory.count(ItemType::DarkStone), 0);
    let hotbar = game_engine::player::starting_hotbar();
    assert_eq!(hotbar.selected, 0);
    assert_eq!(hotbar.slots[2], Some(ItemType::Stone));
    assert_eq!(hotbar.slots[4], Some(ItemType::Dirt));
}

#[test]
fn block_data_table() {
    assert_eq!(BlockType::Air.hardness(), None);
    assert_eq!(BlockType::Dirt.hardness(), Some(0));
    assert_eq!(BlockType::MagicMetal.hardness(), Some(400));
    assert_eq!(BlockType::Crafter.item_on_break(), Some(ItemType::Crafter));
    assert!(!BlockType::Air.renderable());
    assert!(BlockType::Stone.renderable());
    assert!(BlockType::Chest.interactable());
    assert!(!BlockType::Stone.interactable());
    assert_eq!(ItemType::Chest.block(), Some(BlockType::Chest));
    assert_eq!(ItemType::Bronze.block(), None);
    assert_eq!(ItemType::SteelPickaxe.breaking_strength(), Some(400));
}
