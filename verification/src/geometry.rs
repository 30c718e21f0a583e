use vstd::prelude::*;

use crate::data::BlockType;

verus! {

/// A point on the integer grid.
#[derive(Debug, Clone, Copy, PartialEq, Eq, Structural, Hash)]
pub struct Point3 {
    pub x: i32,
    pub y: i32,
    pub z: i32,
}

/// An offset on the integer grid.
#[derive(Debug, Clone, Copy, PartialEq, Eq, Structural, Hash)]
pub struct Vector3 {
    pub x: i32,
    pub y: i32,
    pub z: i32,
}

/// The position of a block in the world.
#[derive(Debug, Clone, Copy, PartialEq, Eq, Structural, Hash)]
pub struct BlockPos(pub Point3);

/// An axis-aligned box on the integer grid, `start` and `end` included.
#[derive(Debug, Clone, Copy, PartialEq, Eq, Structural)]
pub struct AABB {
    pub start: Point3,
    pub end: Point3,
}

/// A block of some type at some position.
#[derive(Debug, Clone, Copy, PartialEq, Eq, Structural)]
pub struct Block {
    pub block_pos: BlockPos,
    pub block_type: BlockType,
}

/// Coordinate `axis` (0, 1 or 2 for x, y, z) of a point.
pub open spec fn coord(p: Point3, axis: int) -> int {
    if axis == 0 {
        p.x as int
    } else if axis == 1 {
        p.y as int
    } else {
        p.z as int
    }
}

/// The smaller of two coordinates.
pub open spec fn min_i(a: i32, b: i32) -> i32 {
    if a <= b {
        a
    } else {
        b
    }
}

/// The larger of two coordinates.
pub open spec fn max_i(a: i32, b: i32) -> i32 {
    if a <= b {
        b
    } else {
        a
    }
}

/// Adding `v` to `p` stays within `i32`.
pub open spec fn offset_fits(p: Point3, v: Vector3) -> bool {
    i32::MIN <= p.x + v.x <= i32::MAX && i32::MIN <= p.y + v.y <= i32::MAX && i32::MIN <= p.z
        + v.z <= i32::MAX
}

/// `p` moved by `v`, where that fits.
pub open spec fn spec_offset(p: Point3, v: Vector3) -> Point3 {
    Point3 { x: (p.x + v.x) as i32, y: (p.y + v.y) as i32, z: (p.z + v.z) as i32 }
}

/// `q` lies in the box from `start` to `end`, both included.
pub open spec fn in_box(start: Point3, end: Point3, q: Point3) -> bool {
    start.x <= q.x <= end.x && start.y <= q.y <= end.y && start.z <= q.z <= end.z
}

/// `a` comes before `b` in x-major, then y, then z order.
pub open spec fn lex_lt(a: Point3, b: Point3) -> bool {
    a.x < b.x || (a.x == b.x && (a.y < b.y || (a.y == b.y && a.z < b.z)))
}

/// `q` comes before the cursor `(cx, cy, cz)` in x-major, then y, then z order.
pub open spec fn before(q: Point3, cx: int, cy: int, cz: int) -> bool {
    q.x < cx || (q.x == cx && (q.y < cy || (q.y == cy && q.z < cz)))
}

/// Corner `i` (0 to 7) of a box: bit 2 picks x, bit 1 picks y, bit 0 picks z
/// from `end` when set and from `start` when clear.
pub open spec fn corner(start: Point3, end: Point3, i: int) -> Point3 {
    Point3 {
        x: if i / 4 % 2 == 1 {
            end.x
        } else {
            start.x
        },
        y: if i / 2 % 2 == 1 {
            end.y
        } else {
            start.y
        },
        z: if i % 2 == 1 {
            end.z
        } else {
            start.z
        },
    }
}

/// The box spanned by two opposite corners: the smaller coordinates start it and the
/// larger ones end it.
pub open spec fn spec_new(p0: Point3, p1: Point3) -> AABB {
    AABB {
        start: Point3 { x: min_i(p0.x, p1.x), y: min_i(p0.y, p1.y), z: min_i(p0.z, p1.z) },
        end: Point3 { x: max_i(p0.x, p1.x), y: max_i(p0.y, p1.y), z: max_i(p0.z, p1.z) },
    }
}

/// The boxes overlap on every axis, boundaries included.
pub open spec fn spec_intersects(a: AABB, b: AABB) -> bool {
    a.start.x <= b.end.x && a.end.x >= b.start.x && a.start.y <= b.end.y && a.end.y >= b.start.y
        && a.start.z <= b.end.z && a.end.z >= b.start.z
}

impl Point3 {
    /// This point moved by `v`.
    pub fn offset(&self, v: &Vector3) -> (p: Point3)
        requires
            offset_fits(*self, *v),
        ensures
            p == spec_offset(*self, *v),
    {
        Point3 { x: self.x + v.x, y: self.y + v.y, z: self.z + v.z }
    }
}

impl BlockPos {
    /// The position moved by `v`.
    pub fn offset(&self, v: &Vector3) -> (p: BlockPos)
        requires
            offset_fits(self.0, *v),
        ensures
            p.0 == spec_offset(self.0, *v),
    {
        BlockPos(self.0.offset(v))
    }
}

impl AABB {
    /// The box has `start <= end` on every axis.
    pub open spec fn is_ordered(&self) -> bool {
        self.start.x <= self.end.x && self.start.y <= self.end.y && self.start.z <= self.end.z
    }

    /// The box spanned by two opposite corners, in any order.
    pub fn new(p0: &Point3, p1: &Point3) -> (b: AABB)
        ensures
            b == spec_new(*p0, *p1),
    {
        let mut start = *p0;
        let mut end = *p1;
        if end.x < start.x {
            let t = start.x;
            start.x = end.x;
            end.x = t;
        }
        if end.y < start.y {
            let t = start.y;
            start.y = end.y;
            end.y = t;
        }
        if end.z < start.z {
            let t = start.z;
            start.z = end.z;
            end.z = t;
        }
        AABB { start, end }
    }

    /// Whether the two boxes overlap, boundaries included.
    pub fn intersects(&self, other: &AABB) -> (b: bool)
        ensures
            b == spec_intersects(*self, *other),
    {
        self.start.x <= other.end.x && self.end.x >= other.start.x && self.start.y <= other.end.y
            && self.end.y >= other.start.y && self.start.z <= other.end.z && self.end.z
            >= other.start.z
    }

    /// Whether the point lies in the box, boundaries included.
    pub fn intersects_point(&self, point: &Point3) -> (b: bool)
        ensures
            b == in_box(self.start, self.end, *point),
    {
        self.start.x <= point.x && point.x <= self.end.x && self.start.y <= point.y && point.y
            <= self.end.y && self.start.z <= point.z && point.z <= self.end.z
    }

    /// The eight corners of the box, as numbered by `corner`.
    pub fn iter_points(&self) -> (ps: Vec<Point3>)
        ensures
            ps.len() == 8,
            forall|i: int| 0 <= i < 8 ==> #[trigger] ps[i] == corner(self.start, self.end, i),
    {
        let mut ps: Vec<Point3> = Vec::new();
        let mut i: usize = 0;
        while i < 8
            invariant
                i <= 8,
                ps.len() == i,
                forall|j: int| 0 <= j < i ==> #[trigger] ps[j] == corner(self.start, self.end, j),
            decreases 8 - i,
        {
            let x = if (i >> 2) & 1 == 1 { self.end.x } else { self.start.x };
            let y = if (i >> 1) & 1 == 1 { self.end.y } else { self.start.y };
            let z = if i & 1 == 1 { self.end.z } else { self.start.z };
            assert(((i >> 2) & 1 == 1) == (i / 4 % 2 == 1)) by (bit_vector)
                requires i < 8usize;
            assert(((i >> 1) & 1 == 1) == (i / 2 % 2 == 1)) by (bit_vector)
                requires i < 8usize;
            assert((i & 1 == 1) == (i % 2 == 1)) by (bit_vector)
                requires i < 8usize;
            ps.push(Point3 { x, y, z });
            i = i + 1;
        }
        ps
    }

    /// Grow this box by the other: the starts add, and the ends add.
    pub fn minkowski_sum(&self, other: &AABB) -> (b: AABB)
        requires
            offset_fits(self.start, Vector3 { x: other.start.x, y: other.start.y, z: other.start.z }),
            offset_fits(self.end, Vector3 { x: other.end.x, y: other.end.y, z: other.end.z }),
        ensures
            b.start == spec_offset(
                self.start,
                Vector3 { x: other.start.x, y: other.start.y, z: other.start.z },
            ),
            b.end == spec_offset(self.end, Vector3 { x: other.end.x, y: other.end.y, z: other.end.z }),
    {
        AABB {
            start: Point3 {
                x: self.start.x + other.start.x,
                y: self.start.y + other.start.y,
                z: self.start.z + other.start.z,
            },
            end: Point3 {
                x: self.end.x + other.end.x,
                y: self.end.y + other.end.y,
                z: self.end.z + other.end.z,
            },
        }
    }

    /// The extent of the box on each axis, `end - start`.
    pub fn size(&self) -> (v: Vector3)
        requires
            i32::MIN <= self.end.x - self.start.x <= i32::MAX,
            i32::MIN <= self.end.y - self.start.y <= i32::MAX,
            i32::MIN <= self.end.z - self.start.z <= i32::MAX,
        ensures
            v.x == self.end.x - self.start.x,
            v.y == self.end.y - self.start.y,
            v.z == self.end.z - self.start.z,
    {
        Vector3 {
            x: self.end.x - self.start.x,
            y: self.end.y - self.start.y,
            z: self.end.z - self.start.z,
        }
    }

    /// The same box moved by `offset`.
    pub fn translate(&self, offset: &Vector3) -> (b: AABB)
        requires
            offset_fits(self.start, *offset),
            offset_fits(self.end, *offset),
        ensures
            b.start == spec_offset(self.start, *offset),
            b.end == spec_offset(self.end, *offset),
    {
        AABB { start: self.start.offset(offset), end: self.end.offset(offset) }
    }
}

impl AABB {
    /// Every block position in the box, in x-major, then y, then z order.
    pub fn iter_blocks(&self) -> (bs: Vec<BlockPos>)
        ensures
            forall|q: Point3| #[trigger] bs@.contains(BlockPos(q)) <==> in_box(self.start, self.end, q),
            forall|i: int, j: int| 0 <= i < j < bs.len() ==> lex_lt(bs[i].0, bs[j].0),
    {
        let sx = self.start.x as i64;
        let sy = self.start.y as i64;
        let sz = self.start.z as i64;
        let ex = self.end.x as i64;
        let ey = self.end.y as i64;
        let ez = self.end.z as i64;
        let ghost st = self.start;
        let ghost en = self.end;
        let mut out: Vec<BlockPos> = Vec::new();
        let mut x: i64 = sx;
        while x <= ex
            invariant
                st == self.start,
                en == self.end,
                sx == st.x,
                sy == st.y,
                sz == st.z,
                ex == en.x,
                ey == en.y,
                ez == en.z,
                sx <= x <= ex + 1 || ex < sx && x == sx,
                forall|i: int|
                    0 <= i < out.len() ==> in_box(st, en, #[trigger] out[i].0) && before(
                        out[i].0,
                        x as int,
                        sy as int,
                        sz as int,
                    ),
                forall|i: int, j: int| 0 <= i < j < out.len() ==> lex_lt(out[i].0, out[j].0),
                forall|q: Point3|
                    in_box(st, en, q) && #[trigger] before(q, x as int, sy as int, sz as int)
                        ==> out@.contains(BlockPos(q)),
            decreases ex + 1 - x,
        {
            let mut y: i64 = sy;
            while y <= ey
                invariant
                    st == self.start,
                    en == self.end,
                    sx == st.x,
                    sy == st.y,
                    sz == st.z,
                    ex == en.x,
                    ey == en.y,
                    ez == en.z,
                    sx <= x <= ex,
                    sy <= y <= ey + 1 || ey < sy && y == sy,
                    forall|i: int|
                        0 <= i < out.len() ==> in_box(st, en, #[trigger] out[i].0) && before(
                            out[i].0,
                            x as int,
                            y as int,
                            sz as int,
                        ),
                    forall|i: int, j: int| 0 <= i < j < out.len() ==> lex_lt(out[i].0, out[j].0),
                    forall|q: Point3|
                        in_box(st, en, q) && #[trigger] before(q, x as int, y as int, sz as int)
                            ==> out@.contains(BlockPos(q)),
                decreases ey + 1 - y,
            {
                let mut z: i64 = sz;
                while z <= ez
                    invariant
                        st == self.start,
                        en == self.end,
                        sx == st.x,
                        sy == st.y,
                        sz == st.z,
                        ex == en.x,
                        ey == en.y,
                        ez == en.z,
                        sx <= x <= ex,
                        sy <= y <= ey,
                        sz <= z <= ez + 1 || ez < sz && z == sz,
                        forall|i: int|
                            0 <= i < out.len() ==> in_box(st, en, #[trigger] out[i].0) && before(
                                out[i].0,
                                x as int,
                                y as int,
                                z as int,
                            ),
                        forall|i: int, j: int|
                            0 <= i < j < out.len() ==> lex_lt(out[i].0, out[j].0),
                        forall|q: Point3|
                            in_box(st, en, q) && #[trigger] before(q, x as int, y as int, z as int)
                                ==> out@.contains(BlockPos(q)),
                    decreases ez + 1 - z,
                {
                    let p = Point3 { x: x as i32, y: y as i32, z: z as i32 };
                    let ghost old_out = out@;
                    out.push(BlockPos(p));
                    assert forall|q: Point3|
                        in_box(st, en, q) && #[trigger] before(
                            q,
                            x as int,
                            y as int,
                            z + 1,
                        ) implies out@.contains(BlockPos(q)) by {
                        if before(q, x as int, y as int, z as int) {
                            let i = choose|i: int|
                                0 <= i < old_out.len() && old_out[i] == BlockPos(q);
                            assert(out@[i] == BlockPos(q));
                        } else {
                            assert(out@[out.len() - 1] == BlockPos(q));
                        }
                    }
                    z = z + 1;
                }
                assert forall|q: Point3|
                    in_box(st, en, q) && #[trigger] before(
                        q,
                        x as int,
                        y + 1,
                        sz as int,
                    ) implies out@.contains(BlockPos(q)) by {
                    assert(before(q, x as int, y as int, z as int));
                }
                y = y + 1;
            }
            assert forall|q: Point3|
                in_box(st, en, q) && #[trigger] before(q, x + 1, sy as int, sz as int) implies out@.contains(
                BlockPos(q),
            ) by {
                assert(before(q, x as int, y as int, sz as int));
            }
            x = x + 1;
        }
        assert forall|q: Point3| #[trigger] out@.contains(BlockPos(q)) <==> in_box(st, en, q) by {
            if out@.contains(BlockPos(q)) {
                let i = choose|i: int| 0 <= i < out.len() && out@[i] == BlockPos(q);
                assert(in_box(st, en, out[i].0));
            }
            if in_box(st, en, q) {
                assert(before(q, x as int, sy as int, sz as int));
            }
        }
        out
    }
}

impl Block {
    /// The unit box from the block's position to one step further on every axis.
    pub fn aabb(&self) -> (b: AABB)
        requires
            self.block_pos.0.x < i32::MAX,
            self.block_pos.0.y < i32::MAX,
            self.block_pos.0.z < i32::MAX,
        ensures
            b.start == self.block_pos.0,
            b.end == spec_offset(self.block_pos.0, Vector3 { x: 1, y: 1, z: 1 }),
    {
        let p0 = self.block_pos.0;
        let p1 = p0.offset(&Vector3 { x: 1, y: 1, z: 1 });
        AABB::new(&p0, &p1)
    }
}

/// A box built from two corners is ordered, does not depend on the order of the
/// corners, and contains both corners.
pub proof fn lemma_new_normalises(p0: Point3, p1: Point3)
    ensures
        spec_new(p0, p1).is_ordered(),
        spec_new(p0, p1) == spec_new(p1, p0),
        in_box(spec_new(p0, p1).start, spec_new(p0, p1).end, p0),
        in_box(spec_new(p0, p1).start, spec_new(p0, p1).end, p1),
{
}

/// Building a box from the corners of an ordered box gives the same box.
pub proof fn lemma_new_of_ordered(b: AABB)
    requires
        b.is_ordered(),
    ensures
        spec_new(b.start, b.end) == b,
{
}

/// Overlap is symmetric, and an ordered box overlaps itself.
pub proof fn lemma_intersects_symmetric(a: AABB, b: AABB)
    ensures
        spec_intersects(a, b) == spec_intersects(b, a),
        a.is_ordered() ==> spec_intersects(a, a),
{
}

/// Two boxes that share a point overlap.
pub proof fn lemma_shared_point_intersects(a: AABB, b: AABB, q: Point3)
    requires
        in_box(a.start, a.end, q),
        in_box(b.start, b.end, q),
    ensures
        spec_intersects(a, b),
{
}

/// Every corner of an ordered box lies in the box.
pub proof fn lemma_corners_in_box(b: AABB, i: int)
    requires
        b.is_ordered(),
        0 <= i < 8,
    ensures
        in_box(b.start, b.end, corner(b.start, b.end, i)),
{
}

/// Moving a box keeps its extent on every axis, and moves each point of it along.
pub proof fn lemma_translate_keeps_size(b: AABB, v: Vector3, q: Point3)
    requires
        offset_fits(b.start, v),
        offset_fits(b.end, v),
        offset_fits(q, v),
    ensures
        spec_offset(b.end, v).x - spec_offset(b.start, v).x == b.end.x - b.start.x,
        spec_offset(b.end, v).y - spec_offset(b.start, v).y == b.end.y - b.start.y,
        spec_offset(b.end, v).z - spec_offset(b.start, v).z == b.end.z - b.start.z,
        in_box(b.start, b.end, q) == in_box(spec_offset(b.start, v), spec_offset(b.end, v), spec_offset(q, v)),
{
}

/// The extent of a Minkowski sum is the sum of the extents.
pub proof fn lemma_minkowski_size(a: AABB, b: AABB)
    requires
        offset_fits(a.start, Vector3 { x: b.start.x, y: b.start.y, z: b.start.z }),
        offset_fits(a.end, Vector3 { x: b.end.x, y: b.end.y, z: b.end.z }),
    ensures
        ({
            let s = spec_offset(a.start, Vector3 { x: b.start.x, y: b.start.y, z: b.start.z });
            let e = spec_offset(a.end, Vector3 { x: b.end.x, y: b.end.y, z: b.end.z });
            &&& e.x - s.x == (a.end.x - a.start.x) + (b.end.x - b.start.x)
            &&& e.y - s.y == (a.end.y - a.start.y) + (b.end.y - b.start.y)
            &&& e.z - s.z == (a.end.z - a.start.z) + (b.end.z - b.start.z)
        }),
{
}

/// A block's box contains the block's own position and overlaps the box of the block
/// next to it.
pub proof fn lemma_block_box_contains_pos(p: Point3)
    requires
        p.x < i32::MAX - 1,
        p.y < i32::MAX,
        p.z < i32::MAX,
    ensures
        in_box(p, spec_offset(p, Vector3 { x: 1, y: 1, z: 1 }), p),
        spec_intersects(
            AABB { start: p, end: spec_offset(p, Vector3 { x: 1, y: 1, z: 1 }) },
            AABB {
                start: spec_offset(p, Vector3 { x: 1, y: 0, z: 0 }),
                end: spec_offset(p, Vector3 { x: 2, y: 1, z: 1 }),
            },
        ),
{
}

} // verus!
