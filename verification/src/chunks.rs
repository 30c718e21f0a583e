use vstd::prelude::*;

use crate::geometry::Point3;

verus! {

/// A chunk near the player: where it is, its squared distance (in chunks) from the
/// player's chunk, and whether it has been generated already.
#[derive(Debug, Clone, Copy, PartialEq, Eq, Structural)]
pub struct ChunkCandidate {
    pub pos: Point3,
    pub distance: u64,
    pub generated: bool,
}

/// `p` lists, for each position of `output`, the position in `input` it came from:
/// every input position exactly once, in order of distance, ties in input order.
pub open spec fn stable_sort_witness(
    input: Seq<ChunkCandidate>,
    output: Seq<ChunkCandidate>,
    p: Seq<int>,
) -> bool {
    &&& output.len() == input.len()
    &&& p.len() == output.len()
    &&& forall|k: int| 0 <= k < p.len() ==> 0 <= #[trigger] p[k] < input.len()
    &&& forall|k: int| 0 <= k < p.len() ==> output[k] == input[#[trigger] p[k]]
    &&& forall|m: int| 0 <= m < input.len() ==> #[trigger] listed(p, m)
    &&& forall|k: int, l: int|
        0 <= k < l < p.len() ==> #[trigger] output[k].distance < #[trigger] output[l].distance || (
        output[k].distance == output[l].distance && p[k] < p[l])
}

/// Some entry of `p` is `m`.
pub open spec fn listed(p: Seq<int>, m: int) -> bool {
    exists|k: int| 0 <= k < p.len() && #[trigger] p[k] == m
}

/// `output` is `input` sorted by distance, equal distances keeping their input order.
pub open spec fn is_stable_sort(input: Seq<ChunkCandidate>, output: Seq<ChunkCandidate>) -> bool {
    exists|p: Seq<int>| stable_sort_witness(input, output, p)
}

/// The position of the first candidate farther than `limit`, or the length if there is none.
pub open spec fn split_point(s: Seq<ChunkCandidate>, limit: int) -> nat
    decreases s.len(),
{
    if s.len() == 0 {
        0
    } else if s[0].distance > limit {
        0
    } else {
        1 + split_point(s.drop_first(), limit)
    }
}

/// The positions of the first `k` candidates not generated yet.
pub open spec fn first_ungenerated(s: Seq<ChunkCandidate>, k: nat) -> Seq<Point3>
    decreases s.len(),
{
    if k == 0 || s.len() == 0 {
        Seq::empty()
    } else if !s[0].generated {
        seq![s[0].pos] + first_ungenerated(s.drop_first(), (k - 1) as nat)
    } else {
        first_ungenerated(s.drop_first(), k)
    }
}

/// The chunks to generate from candidates already sorted by distance: every one within
/// `limit`, then up to `preemptive` of the farther ones not generated yet, nearest first.
pub open spec fn spec_plan(sorted: Seq<ChunkCandidate>, limit: int, preemptive: nat) -> Seq<Point3> {
    let sp = split_point(sorted, limit) as int;
    sorted.take(sp).map_values(|c: ChunkCandidate| c.pos) + first_ungenerated(
        sorted.skip(sp),
        preemptive,
    )
}

/// The squared distance, in chunks, within which every chunk is generated.
pub open spec fn vision_limit(vision_chunks: u32) -> int {
    (vision_chunks + 1) * (vision_chunks + 1)
}

proof fn lemma_split_point(s: Seq<ChunkCandidate>, limit: int, i: int)
    requires
        0 <= i <= s.len(),
        forall|m: int| 0 <= m < i ==> (#[trigger] s[m]).distance <= limit,
        i == s.len() || s[i].distance > limit,
    ensures
        split_point(s, limit) == i,
    decreases i,
{
    if i > 0 {
        assert forall|m: int| 0 <= m < i - 1 implies (#[trigger] s.drop_first()[m]).distance
            <= limit by {
            assert(s.drop_first()[m] == s[m + 1]);
        }
        if i < s.len() {
            assert(s.drop_first()[i - 1] == s[i]);
        }
        lemma_split_point(s.drop_first(), limit, i - 1);
    }
}

/// Sort candidates by distance, keeping the input order among equal distances.
fn sort_by_distance(input: &Vec<ChunkCandidate>) -> (r: (Vec<ChunkCandidate>, Ghost<Seq<int>>))
    ensures
        stable_sort_witness(input@, r.0@, r.1@),
{
    let mut out: Vec<ChunkCandidate> = Vec::new();
    let ghost mut p: Seq<int> = Seq::empty();
    let mut i: usize = 0;
    while i < input.len()
        invariant
            i <= input.len(),
            out.len() == i,
            p.len() == i,
            forall|k: int| 0 <= k < p.len() ==> 0 <= #[trigger] p[k] < i,
            forall|k: int| 0 <= k < p.len() ==> out@[k] == input@[#[trigger] p[k]],
            forall|k: int, l: int|
                0 <= k < l < p.len() ==> #[trigger] out@[k].distance < #[trigger] out@[l].distance
                    || (out@[k].distance == out@[l].distance && p[k] < p[l]),
            forall|k: int, l: int| 0 <= k < l < p.len() ==> p[k] != p[l],
            forall|m: int| 0 <= m < i ==> #[trigger] listed(p, m),
        decreases input.len() - i,
    {
        let c = input[i];
        let mut q: usize = 0;
        while q < out.len() && out[q].distance <= c.distance
            invariant
                q <= out.len(),
                forall|m: int| 0 <= m < q ==> (#[trigger] out@[m]).distance <= c.distance,
            decreases out.len() - q,
        {
            q = q + 1;
        }
        proof {
            // Everything from q on is strictly farther, by the sortedness of `out`.
            assert forall|m: int| q <= m < out.len() implies (#[trigger] out@[m]).distance
                > c.distance by {
                if m > q {
                    assert(out@[q as int].distance <= out@[m].distance);
                }
            }
        }
        let ghost old_out = out@;
        let ghost old_p = p;
        out.insert(q, c);
        proof {
            p.insert_ensures(q as int, i as int);
            p = p.insert(q as int, i as int);
            assert forall|k: int, l: int| 0 <= k < l < p.len() implies #[trigger] out@[k].distance
                < #[trigger] out@[l].distance || (out@[k].distance == out@[l].distance && p[k]
                < p[l]) by {
                if k < q && l < q {
                    assert(out@[k] == old_out[k] && out@[l] == old_out[l]);
                } else if k < q && l == q {
                    assert(out@[k] == old_out[k]);
                } else if k < q && l > q {
                    assert(out@[k] == old_out[k] && out@[l] == old_out[l - 1]);
                } else if k == q {
                    assert(out@[l] == old_out[l - 1]);
                } else {
                    assert(out@[k] == old_out[k - 1] && out@[l] == old_out[l - 1]);
                }
            }
            assert forall|k: int| 0 <= k < p.len() implies out@[k] == input@[#[trigger] p[k]] by {
                if k < q {
                    assert(out@[k] == old_out[k]);
                } else if k > q {
                    assert(out@[k] == old_out[k - 1]);
                }
            }
            assert forall|m: int| 0 <= m < i + 1 implies #[trigger] listed(p, m) by {
                if m == i {
                    assert(p[q as int] == m);
                } else {
                    assert(listed(old_p, m));
                    let k0 = choose|k: int| 0 <= k < old_p.len() && #[trigger] old_p[k] == m;
                    assert(old_p[k0] == m);
                    assert(0 <= k0 < old_p.len());
                    if k0 < q {
                        assert(p[k0] == old_p[k0]);
                        assert(p[k0] == m);
                    } else {
                        assert(p[k0 + 1] == m);
                    }
                }
            }
            assert forall|k: int, l: int| 0 <= k < l < p.len() implies p[k] != p[l] by {
                if k < q && l > q {
                    assert(p[l] == old_p[l - 1]);
                } else if k > q {
                    assert(p[k] == old_p[k - 1] && p[l] == old_p[l - 1]);
                }
            }
        }
        i = i + 1;
    }
    (out, Ghost(p))
}

/// The chunks to generate around the player: the candidates sorted by distance (ties
/// keep their order), all those within `vision_limit(vision_chunks)`, then up to
/// `preemptive` of the farther ones not generated yet.
pub fn chunks_to_generate(candidates: &Vec<ChunkCandidate>, vision_chunks: u32, preemptive: usize) -> (plan: Vec<Point3>)
    requires
        vision_limit(vision_chunks) <= i32::MAX,
    ensures
        exists|sorted: Seq<ChunkCandidate>|
            is_stable_sort(candidates@, sorted) && plan@ == spec_plan(
                sorted,
                vision_limit(vision_chunks),
                preemptive as nat,
            ),
{
    let (sorted, Ghost(p)) = sort_by_distance(candidates);
    assert((vision_chunks as u64 + 1) * (vision_chunks as u64 + 1) <= i32::MAX) by (nonlinear_arith)
        requires
            vision_limit(vision_chunks) <= i32::MAX,
    ;
    let limit: u64 = (vision_chunks as u64 + 1) * (vision_chunks as u64 + 1);
    let mut plan: Vec<Point3> = Vec::new();
    let mut i: usize = 0;
    while i < sorted.len() && sorted[i].distance <= limit
        invariant
            i <= sorted.len(),
            forall|m: int| 0 <= m < i ==> (#[trigger] sorted@[m]).distance <= limit,
            plan@ == sorted@.take(i as int).map_values(|c: ChunkCandidate| c.pos),
        decreases sorted.len() - i,
    {
        plan.push(sorted[i].pos);
        assert(sorted@.take(i + 1).map_values(|c: ChunkCandidate| c.pos) =~= sorted@.take(
            i as int,
        ).map_values(|c: ChunkCandidate| c.pos).push(sorted@[i as int].pos));
        i = i + 1;
    }
    proof {
        lemma_split_point(sorted@, limit as int, i as int);
    }
    let ghost near = plan@;
    let ghost far = sorted@.skip(i as int);
    let mut j: usize = i;
    let mut taken: usize = 0;
    proof {
        assert(plan@.skip(near.len() as int) =~= Seq::<Point3>::empty());
        assert(plan@.take(near.len() as int) =~= near);
    }
    while j < sorted.len() && taken < preemptive
        invariant
            i <= j <= sorted.len(),
            far == sorted@.skip(i as int),
            taken <= preemptive,
            near.len() + taken == plan@.len(),
            plan@.take(near.len() as int) == near,
            plan@.skip(near.len() as int) + first_ungenerated(
                sorted@.skip(j as int),
                (preemptive - taken) as nat,
            ) == first_ungenerated(far, preemptive as nat),
        decreases sorted.len() - j,
    {
        let c = sorted[j];
        let ghost rest = sorted@.skip(j as int);
        let ghost before = plan@;
        assert(rest.drop_first() =~= sorted@.skip(j + 1));
        if !c.generated {
            plan.push(c.pos);
            taken = taken + 1;
            assert(plan@.take(near.len() as int) =~= before.take(near.len() as int));
            assert(plan@.skip(near.len() as int) =~= before.skip(near.len() as int).push(c.pos));
            assert(plan@.skip(near.len() as int) + first_ungenerated(
                sorted@.skip(j + 1),
                (preemptive - taken) as nat,
            ) =~= before.skip(near.len() as int) + first_ungenerated(
                rest,
                (preemptive - (taken - 1)) as nat,
            ));
        }
        j = j + 1;
    }
    assert(first_ungenerated(sorted@.skip(j as int), (preemptive - taken) as nat)
        =~= Seq::<Point3>::empty());
    assert(plan@ =~= near + first_ungenerated(far, preemptive as nat));
    assert(stable_sort_witness(candidates@, sorted@, p));
    assert(is_stable_sort(candidates@, sorted@));
    assert(plan@ == spec_plan(sorted@, limit as int, preemptive as nat));
    plan
}

/// Properties of the split point: everything before it is within the limit, and the
/// candidate at it, if any, is beyond.
proof fn lemma_split_point_bounds(s: Seq<ChunkCandidate>, limit: int)
    ensures
        split_point(s, limit) <= s.len(),
        forall|m: int| 0 <= m < split_point(s, limit) ==> (#[trigger] s[m]).distance <= limit,
        split_point(s, limit) < s.len() ==> s[split_point(s, limit) as int].distance > limit,
    decreases s.len(),
{
    if s.len() > 0 && s[0].distance <= limit {
        lemma_split_point_bounds(s.drop_first(), limit);
        assert forall|m: int| 0 <= m < split_point(s, limit) implies (#[trigger] s[m]).distance
            <= limit by {
            if m > 0 {
                assert(s[m] == s.drop_first()[m - 1]);
            }
        }
        if split_point(s, limit) < s.len() {
            assert(s[split_point(s, limit) as int] == s.drop_first()[split_point(s, limit) - 1]);
        }
    }
}

/// Every chunk within the vision limit is planned, whatever has been generated already.
pub proof fn lemma_plan_covers_vision(
    candidates: Seq<ChunkCandidate>,
    sorted: Seq<ChunkCandidate>,
    limit: int,
    preemptive: nat,
    m: int,
)
    requires
        is_stable_sort(candidates, sorted),
        0 <= m < candidates.len(),
        candidates[m].distance <= limit,
    ensures
        spec_plan(sorted, limit, preemptive).contains(candidates[m].pos),
{
    let p = choose|p: Seq<int>| stable_sort_witness(candidates, sorted, p);
    assert(listed(p, m));
    let k = choose|k: int| 0 <= k < p.len() && #[trigger] p[k] == m;
    lemma_split_point_bounds(sorted, limit);
    let sp = split_point(sorted, limit) as int;
    if k >= sp {
        // The candidate at the split point is beyond the limit, and sorted order puts
        // everything after it at least as far.
        if k > sp {
            assert(sorted[sp].distance <= sorted[k].distance);
        }
        assert(false);
    }
    let near = sorted.take(sp).map_values(|c: ChunkCandidate| c.pos);
    assert(near[k] == candidates[m].pos);
    assert((near + first_ungenerated(sorted.skip(sp), preemptive))[k] == near[k]);
}

/// Preemptive generation plans at most the allowed number of chunks, each one of the
/// candidates that was not generated yet.
pub proof fn lemma_first_ungenerated(s: Seq<ChunkCandidate>, k: nat)
    ensures
        first_ungenerated(s, k).len() <= k,
        forall|i: int|
            0 <= i < first_ungenerated(s, k).len() ==> exists|j: int|
                0 <= j < s.len() && !s[j].generated && #[trigger] first_ungenerated(s, k)[i]
                    == s[j].pos,
    decreases s.len(),
{
    if k > 0 && s.len() > 0 {
        let rest = s.drop_first();
        if !s[0].generated {
            lemma_first_ungenerated(rest, (k - 1) as nat);
            let f = first_ungenerated(s, k);
            assert forall|i: int| 0 <= i < f.len() implies exists|j: int|
                0 <= j < s.len() && !s[j].generated && #[trigger] f[i] == s[j].pos by {
                if i == 0 {
                    assert(f[0] == s[0].pos);
                } else {
                    assert(f[i] == first_ungenerated(rest, (k - 1) as nat)[i - 1]);
                    let j = choose|j: int|
                        0 <= j < rest.len() && !rest[j].generated
                            && first_ungenerated(rest, (k - 1) as nat)[i - 1] == rest[j].pos;
                    assert(s[j + 1] == rest[j]);
                }
            }
        } else {
            lemma_first_ungenerated(rest, k);
            let f = first_ungenerated(s, k);
            assert forall|i: int| 0 <= i < f.len() implies exists|j: int|
                0 <= j < s.len() && !s[j].generated && #[trigger] f[i] == s[j].pos by {
                let j = choose|j: int|
                    0 <= j < rest.len() && !rest[j].generated && first_ungenerated(rest, k)[i]
                        == rest[j].pos;
                assert(s[j + 1] == rest[j]);
            }
        }
    }
}

} // verus!
