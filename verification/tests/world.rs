use game_engine::chunks::{chunks_to_generate, ChunkCandidate};
use game_engine::component_manager::ComponentManager;
use game_engine::controls::{axis, MovementKey, MovementKeys};
use game_engine::data::{BlockType, ItemType};
use game_engine::debug::DebugWindow;
use game_engine::entity::EntityManager;
use game_engine::game::{adjacent_position, visible_blocks};
use game_engine::geometry::{Block, BlockPos, Point3, Vector3, AABB};
use game_engine::messages::{
    click_action, mode_after_escape, route_transfer_request, ClickAction, MessageQueue,
    MouseButton, TransferItemRequestMessage, TransferItemSource,
};
use game_engine::InteractionMode;

fn p(x: i32, y: i32, z: i32) -> Point3 {
    Point3 { x, y, z }
}

#[test]
fn aabb_new_orders_corners() {
    let b = AABB::new(&p(3, -1, 5), &p(0, 2, 5));
    assert_eq!(b.start, p(0, -1, 5));
    assert_eq!(b.end, p(3, 2, 5));
    assert_eq!(AABB::new(&p(0, 2, 5), &p(3, -1, 5)), b);
}

#[test]
fn aabb_intersections() {
    let a = AABB::new(&p(0, 0, 0), &p(1, 1, 1));
    let b = AABB::new(&p(1, 1, 1), &p(2, 2, 2));
    let c = AABB::new(&p(2, 0, 0), &p(3, 1, 1));
    assert!(a.intersects(&b));
    assert!(b.intersects(&a));
    assert!(!a.intersects(&c));
    assert!(a.intersects(&a));
    assert!(a.intersects_point(&p(1, 0, 1)));
    assert!(!a.intersects_point(&p(1, 0, 2)));
}

#[test]
fn aabb_corners_size_translate_and_sum() {
    let a = AABB::new(&p(0, 0, 0), &p(1, 2, 3));
    let corners = a.iter_points();
    assert_eq!(corners.len(), 8);
    assert_eq!(corners[0], p(0, 0, 0));
    assert_eq!(corners[1], p(0, 0, 3));
    assert_eq!(corners[2], p(0, 2, 0));
    assert_eq!(corners[4], p(1, 0, 0));
    assert_eq!(corners[7], p(1, 2, 3));
    let s = a.size();
    assert_eq!((s.x, s.y, s.z), (1, 2, 3));
    let t = a.translate(&Vector3 { x: 10, y: -1, z: 0 });
    assert_eq!(t.start, p(10, -1, 0));
    assert_eq!(t.end, p(11, 1, 3));
    let m = a.minkowski_sum(&AABB::new(&p(-1, -1, -1), &p(0, 0, 0)));
    assert_eq!(m.start, p(-1, -1, -1));
    assert_eq!(m.end, p(1, 2, 3));
}

#[test]
fn aabb_blocks_in_order() {
    let a = AABB::new(&p(0, 0, 0), &p(1, 1, 2));
    let blocks = a.iter_blocks();
    assert_eq!(blocks.len(), 12);
    assert_eq!(blocks[0], BlockPos(p(0, 0, 0)));
    assert_eq!(blocks[1], BlockPos(p(0, 0, 1)));
    assert_eq!(blocks[3], BlockPos(p(0, 1, 0)));
    assert_eq!(blocks[11], BlockPos(p(1, 1, 2)));
    let single = AABB::new(&p(-4, 7, 7), &p(-4, 7, 7)).iter_blocks();
    assert_eq!(single, vec![BlockPos(p(-4, 7, 7))]);
}

#[test]
fn block_box_and_neighbour() {
    let b = Block { block_pos: BlockPos(p(2, -3, 4)), block_type: BlockType::Stone };
    let bb = b.aabb();
    assert_eq!(bb.start, p(2, -3, 4));
    assert_eq!(bb.end, p(3, -2, 5));
    let up = adjacent_position(&b, &Vector3 { x: 0, y: 1, z: 0 });
    assert_eq!(up, BlockPos(p(2, -2, 4)));
}

#[test]
fn entity_ids_are_reused_in_order() {
    let mut m = EntityManager::new(3);
    assert_eq!(m.num_free(), 3);
    assert_eq!(m.create_entity(), 0);
    assert_eq!(m.create_entity(), 1);
    m.destroy_entity(0);
    assert_eq!(m.create_entity(), 2);
    assert_eq!(m.create_entity(), 0);
    assert_eq!(m.num_free(), 0);
}

#[test]
fn component_rows_stay_packed() {
    let mut m = ComponentManager::new();
    m.add_entity(2);
    m.add_entity(5);
    m.add_entity(0);
    assert_eq!(m.num_entities(), 3);
    assert_eq!(m.get_entity_index(2), 0);
    assert_eq!(m.get_entity_index(5), 1);
    assert_eq!(m.get_entity_index(0), 2);
    m.delete_entity(2);
    assert_eq!(m.num_entities(), 2);
    assert_eq!(m.get_entity_index(0), 0);
    assert_eq!(m.get_entity_index(5), 1);
    m.delete_entity(5);
    assert_eq!(m.get_entity_index(0), 0);
    m.add_entity(2);
    assert_eq!(m.get_entity_index(2), 1);
}

#[test]
fn message_queue_is_first_in_first_out() {
    let mut q: MessageQueue<u32> = MessageQueue::new();
    assert_eq!(q.take(), None);
    q.send(1);
    q.send(2);
    assert_eq!(q.take(), Some(1));
    q.send(3);
    assert_eq!(q.take(), Some(2));
    assert_eq!(q.take(), Some(3));
    assert_eq!(q.take(), None);
}

#[test]
fn transfer_requests_route_by_open_interface() {
    let chest = BlockPos(p(1, 1, 1));
    let other = BlockPos(p(9, 9, 9));
    let from_inventory = TransferItemRequestMessage {
        item: ItemType::Dirt,
        count: 1,
        source: TransferItemSource::Inventory,
    };
    let t = route_transfer_request(&from_inventory, &InteractionMode::Block(chest)).unwrap();
    assert_eq!(t.source, TransferItemSource::Inventory);
    assert_eq!(t.dest, TransferItemSource::Block(chest));
    assert_eq!(t.item, ItemType::Dirt);
    assert_eq!(t.count, 1);
    assert!(route_transfer_request(&from_inventory, &InteractionMode::Game).is_none());

    let from_chest = TransferItemRequestMessage {
        item: ItemType::Tin,
        count: 2,
        source: TransferItemSource::Block(chest),
    };
    let t = route_transfer_request(&from_chest, &InteractionMode::Block(chest)).unwrap();
    assert_eq!(t.source, TransferItemSource::Block(chest));
    assert_eq!(t.dest, TransferItemSource::Inventory);
    assert!(route_transfer_request(&from_chest, &InteractionMode::Block(other)).is_none());
    assert!(route_transfer_request(&from_chest, &InteractionMode::UI).is_none());
}

#[test]
fn escape_switches_modes() {
    assert_eq!(mode_after_escape(&InteractionMode::Game), InteractionMode::UI);
    assert_eq!(mode_after_escape(&InteractionMode::UI), InteractionMode::Game);
    assert_eq!(
        mode_after_escape(&InteractionMode::Block(BlockPos(p(0, 0, 0)))),
        InteractionMode::Game
    );
}

#[test]
fn movement_keys_follow_the_mode() {
    let mut k = MovementKeys::new();
    k.handle_keypress(MovementKey::Forward, true);
    k.handle_keypress(MovementKey::Left, true);
    assert_eq!(k.advance(), 1);
    assert_eq!(k.strafe(), -1);
    assert_eq!(k.climb(), 0);
    k.handle_mode(&InteractionMode::UI);
    assert!(!k.enabled());
    assert_eq!(k.advance(), 0);
    k.handle_keypress(MovementKey::Up, true);
    assert_eq!(k.climb(), 0);
    k.handle_mode(&InteractionMode::Game);
    assert!(k.enabled());
    k.handle_keypress(MovementKey::Right, true);
    k.handle_keypress(MovementKey::Left, true);
    assert_eq!(k.strafe(), 0);
    assert_eq!(axis(true, false), -1);
    assert_eq!(axis(false, true), 1);
}

#[test]
fn debug_window_lines() {
    let mut w = DebugWindow::new();
    w.add_line("Last frame: 16ms");
    w.add_line("second");
    assert_eq!(w.num_lines(), 2);
    assert_eq!(w.line(0), "Last frame: 16ms");
    assert_eq!(w.line(1), "second");
    w.clear();
    assert_eq!(w.num_lines(), 0);
}

#[test]
fn chunk_generation_plan() {
    let c = |x: i32, distance: u64, generated: bool| ChunkCandidate { pos: p(x, 0, 0), distance, generated };
    // vision 1 chunk: everything within squared distance 4 is planned.
    let candidates = vec![
        c(10, 9, false),
        c(1, 1, true),
        c(0, 0, false),
        c(2, 4, true),
        c(11, 5, false),
        c(12, 5, true),
        c(13, 9, false),
        c(14, 16, false),
        c(3, 1, false),
    ];
    let plan = chunks_to_generate(&candidates, 1, 2);
    // Sorted: 0(0) 1(1) 3(1) 2(4) | 11(5) 12(5) 10(9) 13(9) 14(16)
    // Near: 0 1 3 2; then the first two far ones not generated yet: 11 and 10.
    assert_eq!(plan, vec![p(0, 0, 0), p(1, 0, 0), p(3, 0, 0), p(2, 0, 0), p(11, 0, 0), p(10, 0, 0)]);

    let none_far = chunks_to_generate(&candidates, 3, 8);
    assert_eq!(none_far.len(), 9);
    assert!(chunks_to_generate(&Vec::new(), 0, 8).is_empty());
}

#[test]
fn clicks_act_only_while_playing() {
    let game = InteractionMode::Game;
    assert_eq!(click_action(&game, MouseButton::Left, true), Some(ClickAction::Break));
    assert_eq!(click_action(&game, MouseButton::Right, true), Some(ClickAction::Use));
    assert_eq!(click_action(&game, MouseButton::Other, true), None);
    assert_eq!(click_action(&game, MouseButton::Left, false), None);
    assert_eq!(click_action(&InteractionMode::UI, MouseButton::Left, true), None);
    let open = InteractionMode::Block(BlockPos(p(1, 2, 3)));
    assert_eq!(click_action(&open, MouseButton::Right, true), None);
}

#[test]
fn entity_ids_are_never_handed_out_twice_while_live() {
    let n = 4;
    let mut m = EntityManager::new(n);
    let mut live: Vec<usize> = Vec::new();
    for _ in 0..3 {
        live.push(m.create_entity());
    }
    assert_eq!(live, vec![0, 1, 2]);
    m.destroy_entity(1);
    live.retain(|&id| id != 1);
    let a = m.create_entity();
    let b = m.create_entity();
    assert_eq!((a, b), (3, 1));
    assert!(!live.contains(&a) && !live.contains(&b));
    live.push(a);
    live.push(b);
    assert_eq!(m.num_free(), 0);
    live.sort();
    assert_eq!(live, vec![0, 1, 2, 3]);
}

#[test]
fn only_exposed_solid_blocks_are_drawn() {
    let blk = |x: i32, t: BlockType| Block { block_pos: BlockPos(p(x, 0, 0)), block_type: t };
    let blocks = vec![blk(0, BlockType::Stone), blk(1, BlockType::Air), blk(2, BlockType::Dirt), blk(3, BlockType::Coal)];
    let exposed = vec![true, true, false, true];
    let drawn = visible_blocks(&blocks, &exposed);
    assert_eq!(drawn, vec![blk(0, BlockType::Stone), blk(3, BlockType::Coal)]);
    assert!(visible_blocks(&Vec::new(), &Vec::new()).is_empty());
}
