use game_engine::data::BlockType;
use game_engine::geometry::Vector3;
use game_engine::world_gen::{
    neighbour_in_chunk, seed_offset_of, ChunkBlocks, BLOCKS_PER_VEIN, SEED_POINTS_PER_CHUNK,
};

fn v(x: i32, y: i32, z: i32) -> Vector3 {
    Vector3 { x, y, z }
}

fn faces() -> Vec<Vector3> {
    vec![
        v(1, 0, 0),
        v(-1, 0, 0),
        v(0, 1, 0),
        v(0, -1, 0),
        v(0, 0, 1),
        v(0, 0, -1),
    ]
}

fn all_offsets(size: usize) -> Vec<(usize, usize, usize)> {
    let mut out = Vec::new();
    for x in 0..size {
        for y in 0..size {
            for z in 0..size {
                out.push((x, y, z));
            }
        }
    }
    out
}

#[test]
fn seed_offset_splits_the_value() {
    // 5 -> x = 5 % 4 = 1, then 5 / 4 = 1 -> y = 0, z = 1
    assert_eq!(seed_offset_of(5, 4), (1, 0, 1));
    // 100 % 64 = 36 -> x = 0, then 36 / 4 = 9 -> y = 2, z = 1
    assert_eq!(seed_offset_of(100, 4), (0, 2, 1));
    assert_eq!(seed_offset_of(63, 4), (3, 3, 3));
    assert_eq!(seed_offset_of(64, 4), (0, 0, 0));
}

#[test]
fn neighbours_stay_inside_the_chunk() {
    assert_eq!(neighbour_in_chunk(4, (1, 1, 1), v(1, 0, 0)), Some((2, 1, 1)));
    assert_eq!(neighbour_in_chunk(4, (3, 1, 1), v(1, 0, 0)), None);
    assert_eq!(neighbour_in_chunk(4, (0, 1, 1), v(-1, 0, 0)), None);
    assert_eq!(neighbour_in_chunk(4, (0, 3, 2), v(0, -3, 1)), Some((0, 0, 3)));
    assert_eq!(neighbour_in_chunk(4, (0, 0, 0), v(i32::MIN, 0, 0)), None);
    assert_eq!(neighbour_in_chunk(4, (0, 0, 0), v(i32::MAX, 0, 0)), None);
}

#[test]
fn chunk_set_changes_one_block() {
    let mut chunk = ChunkBlocks::new(3, BlockType::Stone);
    chunk.set((2, 0, 1), BlockType::Air);
    for c in all_offsets(3) {
        let expected = if c == (2, 0, 1) { BlockType::Air } else { BlockType::Stone };
        assert_eq!(chunk.get(c), expected);
    }
}

#[test]
fn vein_grows_from_its_points() {
    let mut chunk = ChunkBlocks::new(4, BlockType::Stone);
    let picks = vec![(0, 0), (0, 0), (1, 0), (5, 1), (2, 0)];
    let points = chunk.grow_vein((1, 1, 1), BlockType::Copper, &faces(), &picks);
    // (1,1,1)+x joins; the same again is refused; (2,1,1)+x joins; (3,1,1)-x is already there;
    // (3,1,1)+x leaves the chunk.
    assert_eq!(points, vec![(1, 1, 1), (2, 1, 1), (3, 1, 1)]);
    for c in all_offsets(4) {
        let expected = if points.contains(&c) { BlockType::Copper } else { BlockType::Stone };
        assert_eq!(chunk.get(c), expected);
    }
}

#[test]
fn vein_does_not_grow_into_air() {
    let mut chunk = ChunkBlocks::new(4, BlockType::Stone);
    chunk.set((1, 2, 1), BlockType::Air);
    let picks = vec![(0, 2), (0, 3)];
    let points = chunk.grow_vein((1, 1, 1), BlockType::Iron, &faces(), &picks);
    assert_eq!(points, vec![(1, 1, 1), (1, 0, 1)]);
    assert_eq!(chunk.get((1, 2, 1)), BlockType::Air);
    assert_eq!(chunk.get((1, 0, 1)), BlockType::Iron);
    assert_eq!(chunk.get((1, 1, 1)), BlockType::Iron);
}

#[test]
fn vein_without_picks_is_its_seed() {
    let mut chunk = ChunkBlocks::new(2, BlockType::Dirt);
    let points = chunk.grow_vein((0, 1, 0), BlockType::Tin, &faces(), &Vec::new());
    assert_eq!(points, vec![(0, 1, 0)]);
    assert_eq!(chunk.get((0, 1, 0)), BlockType::Tin);
    assert_eq!(chunk.get((1, 1, 0)), BlockType::Dirt);
}

#[test]
fn seed_points_skip_air() {
    let mut chunk = ChunkBlocks::new(4, BlockType::Stone);
    chunk.set((1, 0, 1), BlockType::Air);
    // 5 -> (1,0,1) is air; 100 -> (0,2,1); 63 -> (3,3,3)
    let points = chunk.seed_points(&vec![5, 100, 63]);
    assert_eq!(points, vec![(0, 2, 1), (3, 3, 3)]);
}

#[test]
fn seed_points_use_the_first_values_only() {
    let chunk = ChunkBlocks::new(4, BlockType::Stone);
    let values: Vec<usize> = (0..(SEED_POINTS_PER_CHUNK + 5)).collect();
    let points = chunk.seed_points(&values);
    assert_eq!(points.len(), SEED_POINTS_PER_CHUNK);
    assert_eq!(points[0], (0, 0, 0));
    assert_eq!(points[1], (1, 0, 0));
    assert_eq!(points[4], (0, 0, 1));
}

#[test]
fn ore_pass_grows_one_vein_per_seed_point() {
    let mut chunk = ChunkBlocks::new(4, BlockType::Stone);
    // Seed points (1,0,1) and (0,2,1); only one ore given, so one vein.
    let ores = vec![BlockType::Coal];
    let picks = vec![vec![(0, 0); BLOCKS_PER_VEIN + 3], vec![(0, 0)]];
    chunk.generate_ores(&faces(), &vec![5, 100], &ores, &picks);
    // Every pick starts from the seed (1,0,1) and goes +x: (2,0,1) joins, then is refused.
    assert_eq!(chunk.get((1, 0, 1)), BlockType::Coal);
    assert_eq!(chunk.get((2, 0, 1)), BlockType::Coal);
    assert_eq!(chunk.get((3, 0, 1)), BlockType::Stone);
    assert_eq!(chunk.get((0, 2, 1)), BlockType::Stone);
}

#[test]
fn ore_pass_never_fills_air() {
    let mut chunk = ChunkBlocks::new(4, BlockType::Air);
    for c in [(1, 1, 1), (2, 1, 1), (1, 2, 1), (1, 1, 2)] {
        chunk.set(c, BlockType::Stone);
    }
    let before: Vec<BlockType> = all_offsets(4).into_iter().map(|c| chunk.get(c)).collect();
    let picks: Vec<Vec<(usize, usize)>> = (0..SEED_POINTS_PER_CHUNK)
        .map(|i| (0..BLOCKS_PER_VEIN).map(|j| (i + j, i * 7 + j * 3)).collect())
        .collect();
    let ores = vec![BlockType::Copper; SEED_POINTS_PER_CHUNK];
    // 21 = (1,1,1), 22 = (2,1,1), 25 = (1,1,2), 37 = (1,2,1), 0 = (0,0,0) which is air
    chunk.generate_ores(&faces(), &vec![21, 0, 22, 25, 37], &ores, &picks);
    for (c, b) in all_offsets(4).into_iter().zip(before) {
        if b == BlockType::Air {
            assert_eq!(chunk.get(c), BlockType::Air);
        } else {
            assert_eq!(chunk.get(c), BlockType::Copper);
        }
    }
}
