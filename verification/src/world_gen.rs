use vstd::prelude::*;

use crate::data::BlockType;
use crate::geometry::Vector3;

verus! {

/// The position of a block inside its chunk: offsets from the chunk's corner on x, y, z.
pub type ChunkOffset = (usize, usize, usize);

/// The blocks of one cubic chunk, `size` blocks along each edge, stored x-major.
#[derive(Debug)]
pub struct ChunkBlocks {
    pub size: usize,
    pub blocks: Vec<BlockType>,
}

/// Where the block at offset `c` is stored in a chunk with edge `size`.
pub open spec fn cell_index(size: int, c: ChunkOffset) -> int {
    (c.0 * size + c.1) * size + c.2
}

/// `c` lies inside a chunk with edge `size`.
pub open spec fn in_chunk(size: int, c: ChunkOffset) -> bool {
    c.0 < size && c.1 < size && c.2 < size
}

/// A stored index lies inside the storage of a chunk.
pub proof fn lemma_cell_index_bounds(size: int, c: ChunkOffset)
    requires
        in_chunk(size, c),
    ensures
        0 <= c.0 * size + c.1 < size * size,
        0 <= cell_index(size, c) < size * size * size,
        size * size <= size * size * size,
{
    let a = c.0 * size + c.1;
    assert(0 <= c.0 * size + c.1 < size * size) by (nonlinear_arith)
        requires
            c.0 < size,
            c.1 < size,
    ;
    assert(0 <= a * size + c.2 < size * size * size) by (nonlinear_arith)
        requires
            0 <= a < size * size,
            c.2 < size,
    ;
    assert(size * size <= size * size * size) by (nonlinear_arith)
        requires
            1 <= size,
    ;
}

/// Offsets inside a chunk are stored at distinct indices, and each is read back from its index.
pub proof fn lemma_cell_index_decodes(size: int, c: ChunkOffset)
    requires
        in_chunk(size, c),
    ensures
        cell_index(size, c) % size == c.2,
        (cell_index(size, c) / size) % size == c.1,
        (cell_index(size, c) / size) / size == c.0,
{
    let a = c.0 * size + c.1;
    vstd::arithmetic::div_mod::lemma_fundamental_div_mod_converse(cell_index(size, c), size, a, c.2 as int);
    vstd::arithmetic::div_mod::lemma_fundamental_div_mod_converse(a, size, c.0 as int, c.1 as int);
}

/// Two offsets inside a chunk share an index only if they are the same offset.
pub proof fn lemma_cell_index_injective(size: int, c: ChunkOffset, d: ChunkOffset)
    requires
        in_chunk(size, c),
        in_chunk(size, d),
        cell_index(size, c) == cell_index(size, d),
    ensures
        c == d,
{
    lemma_cell_index_decodes(size, c);
    lemma_cell_index_decodes(size, d);
}


/// How many seed points a chunk draws for its ore veins.
pub const SEED_POINTS_PER_CHUNK: usize = 10;

/// How many growth attempts each ore vein makes.
pub const BLOCKS_PER_VEIN: usize = 10;

/// The offset that a random `value` picks as a seed point in a chunk with edge `size`: the
/// value is reduced modulo the number of blocks, then its remainder by `size` is x, and its
/// quotient splits, by `size` again, into y (quotient) and z (remainder).
pub open spec fn seed_offset(value: usize, size: int) -> ChunkOffset {
    let v = value as int % (size * size * size);
    ((v % size) as usize, (v / size / size) as usize, ((v / size) % size) as usize)
}

/// The seed point that any value picks lies inside the chunk.
pub proof fn lemma_seed_offset_in_chunk(value: usize, size: int)
    requires
        size > 0,
    ensures
        in_chunk(size, seed_offset(value, size)),
        0 <= value as int % (size * size * size) < size * size * size,
        0 <= (value as int % (size * size * size)) / size / size < size,
{
    let cube = size * size * size;
    assert(cube > 0 && cube == size * (size * size)) by (nonlinear_arith)
        requires
            size > 0,
            cube == size * size * size,
    ;
    let v = value as int % cube;
    vstd::arithmetic::div_mod::lemma_mod_bound(value as int, cube);
    vstd::arithmetic::div_mod::lemma_mod_bound(v, size);
    vstd::arithmetic::div_mod::lemma_div_pos_is_pos(v, size);
    vstd::arithmetic::div_mod::lemma_multiply_divide_lt(v, size, size * size);
    vstd::arithmetic::div_mod::lemma_mod_bound(v / size, size);
    vstd::arithmetic::div_mod::lemma_div_pos_is_pos(v / size, size);
    vstd::arithmetic::div_mod::lemma_multiply_divide_lt(v / size, size, size);
}

/// The seed points that `values` pick, in order, keeping those that are not air in `blocks`.
pub open spec fn ground_points(size: int, blocks: Seq<BlockType>, values: Seq<usize>) -> Seq<
    ChunkOffset,
>
    decreases values.len(),
{
    if values.len() == 0 {
        Seq::empty()
    } else {
        let rest = ground_points(size, blocks, values.drop_last());
        let c = seed_offset(values.last(), size);
        if blocks[cell_index(size, c)] != BlockType::Air {
            rest.push(c)
        } else {
            rest
        }
    }
}

/// The first `n` items of `s`, or all of them where it has fewer.
pub open spec fn first<T>(s: Seq<T>, n: int) -> Seq<T> {
    if s.len() <= n {
        s
    } else {
        s.take(n)
    }
}

/// How many veins are grown: one per seed point, ore and set of picks, as far as all three go.
pub open spec fn vein_count(points: int, ores: int, picks: int) -> int {
    if points <= ores && points <= picks {
        points
    } else if ores <= picks {
        ores
    } else {
        picks
    }
}

/// The blocks after the first `n` veins: vein `i` is seeded at `points[i]` with `ores[i]` and
/// grows with the first `BLOCKS_PER_VEIN` of `picks[i]`.
pub open spec fn veins_placed(
    size: int,
    offsets: Seq<Vector3>,
    blocks: Seq<BlockType>,
    points: Seq<ChunkOffset>,
    ores: Seq<BlockType>,
    picks: Seq<Vec<(usize, usize)>>,
    n: int,
) -> Seq<BlockType>
    decreases n,
{
    if n <= 0 {
        blocks
    } else {
        let before = veins_placed(size, offsets, blocks, points, ores, picks, n - 1);
        vein_grown(
            size,
            ores[n - 1],
            offsets,
            vein_start(size, ores[n - 1], before, points[n - 1]),
            first(picks[n - 1]@, BLOCKS_PER_VEIN as int),
        ).0
    }
}

/// The blocks of a chunk after its ore pass: seed points are drawn from the first
/// `SEED_POINTS_PER_CHUNK` of `seed_values` among the blocks that are not air, then the veins
/// are grown one after the other.
pub open spec fn ores_generated(
    size: int,
    offsets: Seq<Vector3>,
    terrain: Seq<BlockType>,
    seed_values: Seq<usize>,
    ores: Seq<BlockType>,
    picks: Seq<Vec<(usize, usize)>>,
) -> Seq<BlockType> {
    let points = ground_points(size, terrain, first(seed_values, SEED_POINTS_PER_CHUNK as int));
    veins_placed(
        size,
        offsets,
        terrain,
        points,
        ores,
        picks,
        vein_count(points.len() as int, ores.len() as int, picks.len() as int),
    )
}

/// Offset `c` moved by `d`, where that stays inside a chunk with edge `size`.
pub open spec fn neighbour(size: int, c: ChunkOffset, d: Vector3) -> Option<ChunkOffset> {
    if 0 <= c.0 + d.x < size && 0 <= c.1 + d.y < size && 0 <= c.2 + d.z < size {
        Some(((c.0 + d.x) as usize, (c.1 + d.y) as usize, (c.2 + d.z) as usize))
    } else {
        None
    }
}

/// A vein just seeded at `seed`: the seed block turned to `ore`, and the seed as its only point.
pub open spec fn vein_start(size: int, ore: BlockType, blocks: Seq<BlockType>, seed: ChunkOffset) -> (
    Seq<BlockType>,
    Seq<ChunkOffset>,
) {
    (blocks.update(cell_index(size, seed), ore), seq![seed])
}

/// One attempt to grow a vein. `pick.0` chooses a point of the vein, `pick.1` an offset of the
/// table; the neighbour they give joins the vein, as `ore`, unless it leaves the chunk, is part
/// of the vein already, or is air.
pub open spec fn vein_step(
    size: int,
    ore: BlockType,
    offsets: Seq<Vector3>,
    state: (Seq<BlockType>, Seq<ChunkOffset>),
    pick: (usize, usize),
) -> (Seq<BlockType>, Seq<ChunkOffset>) {
    let blocks = state.0;
    let points = state.1;
    let from = points[pick.0 as int % points.len() as int];
    match neighbour(size, from, offsets[pick.1 as int % offsets.len() as int]) {
        Some(n) => if !points.contains(n) && blocks[cell_index(size, n)] != BlockType::Air {
            (blocks.update(cell_index(size, n), ore), points.push(n))
        } else {
            state
        },
        None => state,
    }
}

/// The vein after one growth attempt for each of `picks`, in order.
pub open spec fn vein_grown(
    size: int,
    ore: BlockType,
    offsets: Seq<Vector3>,
    start: (Seq<BlockType>, Seq<ChunkOffset>),
    picks: Seq<(usize, usize)>,
) -> (Seq<BlockType>, Seq<ChunkOffset>)
    decreases picks.len(),
{
    if picks.len() == 0 {
        start
    } else {
        vein_step(
            size,
            ore,
            offsets,
            vein_grown(size, ore, offsets, start, picks.drop_last()),
            picks.last(),
        )
    }
}

/// What holds of a vein grown from `seed` in `terrain`: its points are distinct offsets inside
/// the chunk, starting at the seed; each later point is a neighbour, by an offset of the table,
/// of an earlier one and was not air; every point holds `ore`; every other block is as in
/// `terrain`.
pub open spec fn vein_valid(
    size: int,
    ore: BlockType,
    offsets: Seq<Vector3>,
    terrain: Seq<BlockType>,
    seed: ChunkOffset,
    state: (Seq<BlockType>, Seq<ChunkOffset>),
) -> bool {
    let blocks = state.0;
    let points = state.1;
    &&& blocks.len() == terrain.len()
    &&& points.len() >= 1
    &&& points[0] == seed
    &&& forall|k: int| 0 <= k < points.len() ==> in_chunk(size, #[trigger] points[k])
    &&& forall|j: int, k: int| 0 <= j < k < points.len() ==> #[trigger] points[j] != #[trigger] points[k]
    &&& forall|k: int|
        0 <= k < points.len() ==> blocks[cell_index(size, #[trigger] points[k])] == ore
    &&& forall|k: int|
        1 <= k < points.len() ==> terrain[cell_index(size, #[trigger] points[k])]
            != BlockType::Air
    &&& forall|k: int|
        1 <= k < points.len() ==> exists|j: int, o: int|
            0 <= j < k && 0 <= o < offsets.len() && #[trigger] neighbour(size, points[j], offsets[o])
                == Some(#[trigger] points[k])
    &&& forall|c: ChunkOffset|
        in_chunk(size, c) && !points.contains(c) ==> #[trigger] blocks[cell_index(size, c)]
            == terrain[cell_index(size, c)]
}

proof fn lemma_vein_start_valid(
    size: int,
    ore: BlockType,
    offsets: Seq<Vector3>,
    terrain: Seq<BlockType>,
    seed: ChunkOffset,
)
    requires
        size > 0,
        terrain.len() == size * size * size,
        in_chunk(size, seed),
    ensures
        vein_valid(size, ore, offsets, terrain, seed, vein_start(size, ore, terrain, seed)),
{
    let st = vein_start(size, ore, terrain, seed);
    lemma_cell_index_bounds(size, seed);
    assert forall|c: ChunkOffset| in_chunk(size, c) && !st.1.contains(c) implies #[trigger] st.0[cell_index(size, c)]
        == terrain[cell_index(size, c)] by {
        lemma_cell_index_bounds(size, c);
        assert(st.1[0] == seed);
        if cell_index(size, c) == cell_index(size, seed) {
            lemma_cell_index_injective(size, c, seed);
        }
    }
}

proof fn lemma_vein_step_valid(
    size: int,
    ore: BlockType,
    offsets: Seq<Vector3>,
    terrain: Seq<BlockType>,
    seed: ChunkOffset,
    state: (Seq<BlockType>, Seq<ChunkOffset>),
    pick: (usize, usize),
)
    requires
        size > 0,
        terrain.len() == size * size * size,
        offsets.len() > 0,
        vein_valid(size, ore, offsets, terrain, seed, state),
    ensures
        vein_valid(size, ore, offsets, terrain, seed, vein_step(size, ore, offsets, state, pick)),
        vein_step(size, ore, offsets, state, pick).1.len() <= state.1.len() + 1,
{
    let blocks = state.0;
    let points = state.1;
    let j = pick.0 as int % points.len() as int;
    let o = pick.1 as int % offsets.len() as int;
    let from = points[j];
    let next = vein_step(size, ore, offsets, state, pick);
    if let Some(n) = neighbour(size, from, offsets[o]) {
        if !points.contains(n) && blocks[cell_index(size, n)] != BlockType::Air {
            let nb = next.0;
            let np = next.1;
            lemma_cell_index_bounds(size, n);
            assert(np[points.len() as int] == n);
            assert forall|k: int| 0 <= k < np.len() implies nb[cell_index(size, #[trigger] np[k])]
                == ore by {
                if k < points.len() {
                    assert(np[k] == points[k]);
                    lemma_cell_index_bounds(size, points[k]);
                    if cell_index(size, points[k]) == cell_index(size, n) {
                        lemma_cell_index_injective(size, points[k], n);
                    }
                }
            }
            assert forall|j2: int, k: int| 0 <= j2 < k < np.len() implies #[trigger] np[j2]
                != #[trigger] np[k] by {
                if k == points.len() {
                    assert(np[j2] == points[j2]);
                }
            }
            assert(terrain[cell_index(size, n)] != BlockType::Air);
            assert forall|k: int| 1 <= k < np.len() implies terrain[cell_index(
                size,
                #[trigger] np[k],
            )] != BlockType::Air by {
                if k < points.len() {
                    assert(np[k] == points[k]);
                }
            }
            assert forall|k: int| 1 <= k < np.len() implies exists|j2: int, o2: int|
                0 <= j2 < k && 0 <= o2 < offsets.len() && #[trigger] neighbour(
                    size,
                    np[j2],
                    offsets[o2],
                ) == Some(#[trigger] np[k]) by {
                if k < points.len() {
                    assert(np[k] == points[k]);
                    let (j3, o3) = choose|j3: int, o3: int|
                        0 <= j3 < k && 0 <= o3 < offsets.len() && #[trigger] neighbour(
                            size,
                            points[j3],
                            offsets[o3],
                        ) == Some(#[trigger] points[k]);
                    assert(np[j3] == points[j3]);
                } else {
                    assert(np[j] == points[j]);
                    assert(neighbour(size, np[j], offsets[o]) == Some(np[k]));
                }
            }
            assert forall|c: ChunkOffset| in_chunk(size, c) && !np.contains(c) implies #[trigger] nb[cell_index(size, c)]
                == terrain[cell_index(size, c)] by {
                lemma_cell_index_bounds(size, c);
                if points.contains(c) {
                    let k = choose|k: int| 0 <= k < points.len() && points[k] == c;
                    assert(np[k] == c);
                }
                if cell_index(size, c) == cell_index(size, n) {
                    lemma_cell_index_injective(size, c, n);
                }
            }
        }
    }
}

/// However the picks fall, a vein grown from a seed inside the chunk stays valid (see
/// `vein_valid`), and gains at most one point per pick.
pub proof fn lemma_vein_grown_valid(
    size: int,
    ore: BlockType,
    offsets: Seq<Vector3>,
    terrain: Seq<BlockType>,
    seed: ChunkOffset,
    picks: Seq<(usize, usize)>,
)
    requires
        size > 0,
        terrain.len() == size * size * size,
        offsets.len() > 0,
        in_chunk(size, seed),
    ensures
        vein_valid(
            size,
            ore,
            offsets,
            terrain,
            seed,
            vein_grown(size, ore, offsets, vein_start(size, ore, terrain, seed), picks),
        ),
        vein_grown(size, ore, offsets, vein_start(size, ore, terrain, seed), picks).1.len()
            <= picks.len() + 1,
    decreases picks.len(),
{
    if picks.len() == 0 {
        lemma_vein_start_valid(size, ore, offsets, terrain, seed);
    } else {
        lemma_vein_grown_valid(size, ore, offsets, terrain, seed, picks.drop_last());
        lemma_vein_step_valid(
            size,
            ore,
            offsets,
            terrain,
            seed,
            vein_grown(size, ore, offsets, vein_start(size, ore, terrain, seed), picks.drop_last()),
            picks.last(),
        );
    }
}

/// Seed points lie inside the chunk, on blocks that are not air.
proof fn lemma_ground_points(size: int, blocks: Seq<BlockType>, values: Seq<usize>)
    requires
        size > 0,
    ensures
        forall|k: int|
            0 <= k < ground_points(size, blocks, values).len() ==> in_chunk(
                size,
                #[trigger] ground_points(size, blocks, values)[k],
            ) && blocks[cell_index(size, ground_points(size, blocks, values)[k])]
                != BlockType::Air,
    decreases values.len(),
{
    if values.len() > 0 {
        lemma_ground_points(size, blocks, values.drop_last());
        lemma_seed_offset_in_chunk(values.last(), size);
    }
}

/// After any number of veins: air in `terrain` is still air, and every block that changed holds
/// one of `ores`.
proof fn lemma_veins_placed_keep_air(
    size: int,
    offsets: Seq<Vector3>,
    terrain: Seq<BlockType>,
    points: Seq<ChunkOffset>,
    ores: Seq<BlockType>,
    picks: Seq<Vec<(usize, usize)>>,
    n: int,
)
    requires
        size > 0,
        terrain.len() == size * size * size,
        offsets.len() > 0,
        0 <= n <= points.len(),
        n <= ores.len(),
        forall|k: int|
            0 <= k < points.len() ==> in_chunk(size, #[trigger] points[k]) && terrain[cell_index(
                size,
                points[k],
            )] != BlockType::Air,
    ensures
        veins_placed(size, offsets, terrain, points, ores, picks, n).len() == terrain.len(),
        forall|c: ChunkOffset|
            #![trigger veins_placed(size, offsets, terrain, points, ores, picks, n)[cell_index(size, c)]]
            in_chunk(size, c) ==> {
                let b = veins_placed(size, offsets, terrain, points, ores, picks, n)[cell_index(size, c)];
                &&& terrain[cell_index(size, c)] == BlockType::Air ==> b == BlockType::Air
                &&& b != terrain[cell_index(size, c)] ==> ores.contains(b)
            },
    decreases n,
{
    if n > 0 {
        lemma_veins_placed_keep_air(size, offsets, terrain, points, ores, picks, n - 1);
        let before = veins_placed(size, offsets, terrain, points, ores, picks, n - 1);
        let seed = points[n - 1];
        let ore = ores[n - 1];
        let vp = first(picks[n - 1]@, BLOCKS_PER_VEIN as int);
        lemma_vein_grown_valid(size, ore, offsets, before, seed, vp);
        let grown = vein_grown(size, ore, offsets, vein_start(size, ore, before, seed), vp);
        let after = veins_placed(size, offsets, terrain, points, ores, picks, n);
        assert(after == grown.0);
        assert forall|c: ChunkOffset| #![trigger after[cell_index(size, c)]] in_chunk(size, c) implies {
            let b = after[cell_index(size, c)];
            &&& terrain[cell_index(size, c)] == BlockType::Air ==> b == BlockType::Air
            &&& b != terrain[cell_index(size, c)] ==> ores.contains(b)
        } by {
            let b = after[cell_index(size, c)];
            assert(before[cell_index(size, c)] == before[cell_index(size, c)]);
            if grown.1.contains(c) {
                let k = choose|k: int| 0 <= k < grown.1.len() && grown.1[k] == c;
                assert(b == ore);
                assert(ores[n - 1] == ore);
                if k == 0 {
                    assert(terrain[cell_index(size, seed)] != BlockType::Air);
                } else {
                    assert(before[cell_index(size, grown.1[k])] != BlockType::Air);
                }
            } else {
                assert(b == before[cell_index(size, c)]);
            }
        }
    }
}

/// Ores are only ever generated in the ground: whatever the random values, a block that is
/// air in the terrain is still air after the ore pass, and every block that changed now holds
/// one of `ores`.
pub proof fn lemma_ores_only_in_ground(
    size: int,
    offsets: Seq<Vector3>,
    terrain: Seq<BlockType>,
    seed_values: Seq<usize>,
    ores: Seq<BlockType>,
    picks: Seq<Vec<(usize, usize)>>,
    c: ChunkOffset,
)
    requires
        size > 0,
        terrain.len() == size * size * size,
        offsets.len() > 0,
        in_chunk(size, c),
    ensures
        terrain[cell_index(size, c)] == BlockType::Air ==> ores_generated(
            size,
            offsets,
            terrain,
            seed_values,
            ores,
            picks,
        )[cell_index(size, c)] == BlockType::Air,
        ores_generated(size, offsets, terrain, seed_values, ores, picks)[cell_index(size, c)]
            != terrain[cell_index(size, c)] ==> ores.contains(
            ores_generated(size, offsets, terrain, seed_values, ores, picks)[cell_index(size, c)],
        ),
{
    let points = ground_points(size, terrain, first(seed_values, SEED_POINTS_PER_CHUNK as int));
    lemma_ground_points(size, terrain, first(seed_values, SEED_POINTS_PER_CHUNK as int));
    let n = vein_count(points.len() as int, ores.len() as int, picks.len() as int);
    lemma_veins_placed_keep_air(size, offsets, terrain, points, ores, picks, n);
    assert(veins_placed(size, offsets, terrain, points, ores, picks, n)[cell_index(size, c)]
        == veins_placed(size, offsets, terrain, points, ores, picks, n)[cell_index(size, c)]);
}

/// With veins that make no growth attempt, vein `i` leaves `ores[i]` at its seed point
/// `points[i]`, as long as no two seed points coincide.
proof fn lemma_unpicked_veins_keep_their_ores(
    size: int,
    offsets: Seq<Vector3>,
    terrain: Seq<BlockType>,
    points: Seq<ChunkOffset>,
    ores: Seq<BlockType>,
    picks: Seq<Vec<(usize, usize)>>,
    n: int,
)
    requires
        size > 0,
        terrain.len() == size * size * size,
        0 <= n <= points.len(),
        n <= ores.len(),
        n <= picks.len(),
        points.no_duplicates(),
        forall|k: int| 0 <= k < points.len() ==> in_chunk(size, #[trigger] points[k]),
        forall|k: int| 0 <= k < picks.len() ==> (#[trigger] picks[k])@.len() == 0,
    ensures
        veins_placed(size, offsets, terrain, points, ores, picks, n).len() == terrain.len(),
        forall|i: int|
            0 <= i < n ==> veins_placed(size, offsets, terrain, points, ores, picks, n)[cell_index(
                size,
                #[trigger] points[i],
            )] == ores[i],
    decreases n,
{
    if n > 0 {
        lemma_unpicked_veins_keep_their_ores(size, offsets, terrain, points, ores, picks, n - 1);
        let before = veins_placed(size, offsets, terrain, points, ores, picks, n - 1);
        let seed = points[n - 1];
        assert(picks[n - 1]@.len() == 0);
        assert(first(picks[n - 1]@, BLOCKS_PER_VEIN as int) == picks[n - 1]@);
        let after = veins_placed(size, offsets, terrain, points, ores, picks, n);
        assert(after == before.update(cell_index(size, seed), ores[n - 1]));
        lemma_cell_index_bounds(size, seed);
        assert forall|i: int| 0 <= i < n implies after[cell_index(size, #[trigger] points[i])]
            == ores[i] by {
            lemma_cell_index_bounds(size, points[i]);
            if i < n - 1 {
                if cell_index(size, points[i]) == cell_index(size, seed) {
                    lemma_cell_index_injective(size, points[i], seed);
                }
            }
        }
    }
}

/// Each vein is seeded with its own ore: when the seed points are distinct and no vein
/// makes a growth attempt, the ore pass leaves `ores[i]` at the `i`-th seed point, for
/// every vein `i`.
pub proof fn lemma_each_vein_has_its_ore(
    size: int,
    offsets: Seq<Vector3>,
    terrain: Seq<BlockType>,
    seed_values: Seq<usize>,
    ores: Seq<BlockType>,
    picks: Seq<Vec<(usize, usize)>>,
    i: int,
)
    requires
        size > 0,
        terrain.len() == size * size * size,
        ground_points(size, terrain, first(seed_values, SEED_POINTS_PER_CHUNK as int)).no_duplicates(),
        forall|k: int| 0 <= k < picks.len() ==> (#[trigger] picks[k])@.len() == 0,
        0 <= i < vein_count(
            ground_points(size, terrain, first(seed_values, SEED_POINTS_PER_CHUNK as int)).len() as int,
            ores.len() as int,
            picks.len() as int,
        ),
    ensures
        ores_generated(size, offsets, terrain, seed_values, ores, picks)[cell_index(
            size,
            ground_points(size, terrain, first(seed_values, SEED_POINTS_PER_CHUNK as int))[i],
        )] == ores[i],
{
    let points = ground_points(size, terrain, first(seed_values, SEED_POINTS_PER_CHUNK as int));
    lemma_ground_points(size, terrain, first(seed_values, SEED_POINTS_PER_CHUNK as int));
    let n = vein_count(points.len() as int, ores.len() as int, picks.len() as int);
    lemma_unpicked_veins_keep_their_ores(size, offsets, terrain, points, ores, picks, n);
    assert(points[i] == points[i]);
}

/// The ore pass is deterministic: the same terrain, offsets, random values, ores and picks
/// always give the same blocks.
pub proof fn lemma_ore_pass_deterministic(
    size: int,
    offsets: Seq<Vector3>,
    terrain: Seq<BlockType>,
    seed_values: Seq<usize>,
    ores: Seq<BlockType>,
    picks: Seq<Vec<(usize, usize)>>,
    other_terrain: Seq<BlockType>,
)
    requires
        other_terrain == terrain,
    ensures
        ores_generated(size, offsets, other_terrain, seed_values, ores, picks) == ores_generated(
            size,
            offsets,
            terrain,
            seed_values,
            ores,
            picks,
        ),
{
}

/// The seed point that a random `value` picks in a chunk with edge `size` (see `seed_offset`).
pub fn seed_offset_of(value: usize, size: usize) -> (c: ChunkOffset)
    requires
        size > 0,
        size * size * size <= usize::MAX,
    ensures
        c == seed_offset(value, size as int),
        in_chunk(size as int, c),
{
    proof {
        lemma_seed_offset_in_chunk(value, size as int);
        assert(size * size <= size * size * size) by (nonlinear_arith)
            requires
                1 <= size,
        ;
    }
    let v = value % (size * size * size);
    let rest = v / size;
    (v % size, rest / size, rest % size)
}

/// The first `n` items of `v`, or all of them where it has fewer.
fn first_of<T: Copy>(v: &Vec<T>, n: usize) -> (r: Vec<T>)
    ensures
        r@ == first(v@, n as int),
{
    let mut r: Vec<T> = Vec::new();
    let mut i: usize = 0;
    while i < v.len() && i < n
        invariant
            i <= v.len(),
            i <= n,
            r@ == v@.take(i as int),
        decreases v.len() - i,
    {
        r.push(v[i]);
        i += 1;
        proof {
            assert(r@ == v@.take(i as int));
        }
    }
    proof {
        if v.len() <= n {
            assert(v@.take(v.len() as int) == v@);
        }
    }
    r
}

/// `c` moved by `d` along one axis, if the result lies in `0..size`.
fn shift(c: usize, d: i32, size: usize) -> (r: Option<usize>)
    ensures
        r == (if 0 <= c + d < size {
            Some((c + d) as usize)
        } else {
            None::<usize>
        }),
{
    if d < 0 {
        let back: usize = (0i64 - d as i64) as usize;
        if c < back {
            None
        } else {
            let r = c - back;
            if r < size {
                Some(r)
            } else {
                None
            }
        }
    } else {
        match c.checked_add(d as usize) {
            Some(r) => if r < size {
                Some(r)
            } else {
                None
            },
            None => None,
        }
    }
}

/// The neighbour of `c` by `d`, if it lies inside a chunk with edge `size`.
pub fn neighbour_in_chunk(size: usize, c: ChunkOffset, d: Vector3) -> (r: Option<ChunkOffset>)
    ensures
        r == neighbour(size as int, c, d),
{
    match (shift(c.0, d.x, size), shift(c.1, d.y, size), shift(c.2, d.z, size)) {
        (Some(x), Some(y), Some(z)) => Some((x, y, z)),
        _ => None,
    }
}

/// Whether `c` is one of `points`.
fn contains_offset(points: &Vec<ChunkOffset>, c: ChunkOffset) -> (b: bool)
    ensures
        b == points@.contains(c),
{
    let mut i: usize = 0;
    while i < points.len()
        invariant
            i <= points.len(),
            forall|j: int| 0 <= j < i ==> points@[j] != c,
        decreases points.len() - i,
    {
        let p = points[i];
        if p.0 == c.0 && p.1 == c.1 && p.2 == c.2 {
            assert(points@[i as int] == c);
            return true;
        }
        i += 1;
    }
    false
}

impl ChunkBlocks {
    /// The storage holds exactly one block per offset of the chunk.
    pub open spec fn wf(&self) -> bool {
        &&& self.size > 0
        &&& self.blocks.len() == self.size * self.size * self.size
    }

    /// The block at offset `c`.
    pub open spec fn block_at(&self, c: ChunkOffset) -> BlockType {
        self.blocks@[cell_index(self.size as int, c)]
    }

    /// A chunk of edge `size` filled with `fill`.
    pub fn new(size: usize, fill: BlockType) -> (chunk: Self)
        requires
            size > 0,
            size * size * size <= usize::MAX,
        ensures
            chunk.wf(),
            chunk.size == size,
            forall|c: ChunkOffset| in_chunk(size as int, c) ==> #[trigger] chunk.block_at(c) == fill,
    {
        assert(size * size <= size * size * size) by (nonlinear_arith)
            requires
                1 <= size,
        ;
        let total: usize = size * size * size;
        let mut blocks: Vec<BlockType> = Vec::new();
        while blocks.len() < total
            invariant
                blocks.len() <= total,
                forall|i: int| 0 <= i < blocks.len() ==> blocks@[i] == fill,
            decreases total - blocks.len(),
        {
            blocks.push(fill);
        }
        let chunk = ChunkBlocks { size, blocks };
        assert forall|c: ChunkOffset| in_chunk(size as int, c) implies #[trigger] chunk.block_at(c)
            == fill by {
            lemma_cell_index_bounds(size as int, c);
        }
        chunk
    }

    /// The block at offset `c`.
    pub fn get(&self, c: ChunkOffset) -> (b: BlockType)
        requires
            self.wf(),
            in_chunk(self.size as int, c),
        ensures
            b == self.block_at(c),
    {
        proof {
            lemma_cell_index_bounds(self.size as int, c);
        }
        self.blocks[(c.0 * self.size + c.1) * self.size + c.2]
    }

    /// Puts `b` at offset `c`, leaving every other block as it was.
    pub fn set(&mut self, c: ChunkOffset, b: BlockType)
        requires
            old(self).wf(),
            in_chunk(old(self).size as int, c),
        ensures
            final(self).wf(),
            final(self).size == old(self).size,
            final(self).block_at(c) == b,
            final(self).blocks@ == old(self).blocks@.update(cell_index(old(self).size as int, c), b),
            forall|d: ChunkOffset|
                in_chunk(old(self).size as int, d) && d != c ==> #[trigger] final(self).block_at(d)
                    == old(self).block_at(d),
    {
        proof {
            lemma_cell_index_bounds(self.size as int, c);
        }
        let i = (c.0 * self.size + c.1) * self.size + c.2;
        self.blocks.set(i, b);
        proof {
            assert forall|d: ChunkOffset|
                in_chunk(old(self).size as int, d) && d != c implies #[trigger] self.block_at(d)
                == old(self).block_at(d) by {
                lemma_cell_index_bounds(self.size as int, d);
                if cell_index(self.size as int, d) == cell_index(self.size as int, c) {
                    lemma_cell_index_injective(self.size as int, c, d);
                }
            }
        }
    }

    /// One growth attempt of the vein whose points are `points` (see `vein_step`).
    fn try_grow(
        &mut self,
        points: &mut Vec<ChunkOffset>,
        ore: BlockType,
        offsets: &Vec<Vector3>,
        pick: (usize, usize),
    )
        requires
            old(self).wf(),
            old(points).len() > 0,
            forall|k: int|
                0 <= k < old(points).len() ==> in_chunk(old(self).size as int, #[trigger] old(points)@[k]),
            offsets.len() > 0,
        ensures
            final(self).wf(),
            final(self).size == old(self).size,
            (final(self).blocks@, final(points)@) == vein_step(
                old(self).size as int,
                ore,
                offsets@,
                (old(self).blocks@, old(points)@),
                pick,
            ),
    {
        let from = points[pick.0 % points.len()];
        let d = offsets[pick.1 % offsets.len()];
        if let Some(n) = neighbour_in_chunk(self.size, from, d) {
            if !contains_offset(points, n) {
                let b = self.get(n);
                if b != BlockType::Air {
                    self.set(n, ore);
                    points.push(n);
                }
            }
        }
    }

    /// Seeds a vein of `ore` at `seed` and tries to grow it once per pick (see `vein_step`).
    /// Returns the vein's points, the seed first, in the order they joined.
    pub fn grow_vein(
        &mut self,
        seed: ChunkOffset,
        ore: BlockType,
        offsets: &Vec<Vector3>,
        picks: &Vec<(usize, usize)>,
    ) -> (points: Vec<ChunkOffset>)
        requires
            old(self).wf(),
            in_chunk(old(self).size as int, seed),
            offsets.len() > 0,
        ensures
            final(self).wf(),
            final(self).size == old(self).size,
            (final(self).blocks@, points@) == vein_grown(
                old(self).size as int,
                ore,
                offsets@,
                vein_start(old(self).size as int, ore, old(self).blocks@, seed),
                picks@,
            ),
    {
        let ghost size = self.size as int;
        let ghost terrain = self.blocks@;
        self.set(seed, ore);
        let mut points: Vec<ChunkOffset> = Vec::new();
        points.push(seed);
        proof {
            assert(points@ == seq![seed]);
            assert(picks@.take(0) == Seq::<(usize, usize)>::empty());
            lemma_vein_start_valid(size, ore, offsets@, terrain, seed);
        }
        let mut i: usize = 0;
        while i < picks.len()
            invariant
                0 <= i <= picks.len(),
                size == self.size,
                self.wf(),
                offsets.len() > 0,
                terrain.len() == size * size * size,
                in_chunk(size, seed),
                (self.blocks@, points@) == vein_grown(
                    size,
                    ore,
                    offsets@,
                    vein_start(size, ore, terrain, seed),
                    picks@.take(i as int),
                ),
                vein_valid(size, ore, offsets@, terrain, seed, (self.blocks@, points@)),
            decreases picks.len() - i,
        {
            let pick = picks[i];
            proof {
                assert(picks@.take(i + 1).drop_last() == picks@.take(i as int));
                lemma_vein_step_valid(
                    size,
                    ore,
                    offsets@,
                    terrain,
                    seed,
                    (self.blocks@, points@),
                    pick,
                );
            }
            self.try_grow(&mut points, ore, offsets, pick);
            i += 1;
        }
        proof {
            assert(picks@.take(picks.len() as int) == picks@);
        }
        points
    }

    /// The seed points of the ore pass: the offsets that the first `SEED_POINTS_PER_CHUNK` of
    /// `values` pick, in order, keeping those that are not air.
    pub fn seed_points(&self, values: &Vec<usize>) -> (points: Vec<ChunkOffset>)
        requires
            self.wf(),
        ensures
            points@ == ground_points(
                self.size as int,
                self.blocks@,
                first(values@, SEED_POINTS_PER_CHUNK as int),
            ),
            forall|k: int| 0 <= k < points.len() ==> in_chunk(self.size as int, #[trigger] points@[k]),
    {
        let vals = first_of(values, SEED_POINTS_PER_CHUNK);
        let mut points: Vec<ChunkOffset> = Vec::new();
        let mut i: usize = 0;
        while i < vals.len()
            invariant
                self.wf(),
                i <= vals.len(),
                points@ == ground_points(self.size as int, self.blocks@, vals@.take(i as int)),
                forall|k: int| 0 <= k < points.len() ==> in_chunk(self.size as int, #[trigger] points@[k]),
            decreases vals.len() - i,
        {
            let c = seed_offset_of(vals[i], self.size);
            proof {
                assert(vals@.take(i + 1).drop_last() == vals@.take(i as int));
            }
            if self.get(c) != BlockType::Air {
                points.push(c);
            }
            i += 1;
        }
        proof {
            assert(vals@.take(vals.len() as int) == vals@);
        }
        points
    }

    /// The ore pass of chunk generation (see `ores_generated`): vein `i` is seeded at the `i`th
    /// seed point with `ores[i]` and grows with the first `BLOCKS_PER_VEIN` of `picks[i]`, each
    /// pick choosing a point of the vein and an entry of `offsets`.
    pub fn generate_ores(
        &mut self,
        offsets: &Vec<Vector3>,
        seed_values: &Vec<usize>,
        ores: &Vec<BlockType>,
        picks: &Vec<Vec<(usize, usize)>>,
    )
        requires
            old(self).wf(),
            offsets.len() > 0,
        ensures
            final(self).wf(),
            final(self).size == old(self).size,
            final(self).blocks@ == ores_generated(
                old(self).size as int,
                offsets@,
                old(self).blocks@,
                seed_values@,
                ores@,
                picks@,
            ),
    {
        let ghost terrain = self.blocks@;
        let points = self.seed_points(seed_values);
        let mut n = points.len();
        if ores.len() < n {
            n = ores.len();
        }
        if picks.len() < n {
            n = picks.len();
        }
        assert(n == vein_count(points.len() as int, ores.len() as int, picks.len() as int));
        let mut i: usize = 0;
        while i < n
            invariant
                self.wf(),
                self.size == old(self).size,
                offsets.len() > 0,
                n <= points.len(),
                n <= ores.len(),
                n <= picks.len(),
                i <= n,
                forall|k: int| 0 <= k < points.len() ==> in_chunk(self.size as int, #[trigger] points@[k]),
                self.blocks@ == veins_placed(
                    self.size as int,
                    offsets@,
                    terrain,
                    points@,
                    ores@,
                    picks@,
                    i as int,
                ),
            decreases n - i,
        {
            let vein_picks = first_of(&picks[i], BLOCKS_PER_VEIN);
            let _vein = self.grow_vein(points[i], ores[i], offsets, &vein_picks);
            i += 1;
        }
    }

}

} // verus!
