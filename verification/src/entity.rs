use std::collections::VecDeque;
use vstd::prelude::*;

verus! {

/// Entities are named by small integers.
pub type EntityId = usize;

/// The kinds of non-player entity.
#[derive(Debug, Clone, Copy, PartialEq, Eq, Structural)]
pub enum EntityType {
    Sibeal,
}

/// Which interface an interactable block opens.
#[derive(Debug, Clone, Copy, PartialEq, Eq, Structural)]
pub enum UIType {
    Chest,
    Crafter,
}

/// The system that moves entities forward each tick.
pub struct MoveSystem;

/// Hands out entity ids, first freed first reused.
pub struct EntityManager {
    free_ids: VecDeque<EntityId>,
}

impl View for EntityManager {
    type V = Seq<EntityId>;

    /// The free ids, in the order they will be handed out.
    closed spec fn view(&self) -> Seq<EntityId> {
        self.free_ids@
    }
}

impl EntityManager {
    /// A manager whose free ids are `0 .. max_entities`, in increasing order.
    pub fn new(max_entities: usize) -> (m: Self)
        ensures
            m@ == Seq::new(max_entities as nat, |i: int| i as usize),
    {
        let mut free_ids: VecDeque<EntityId> = VecDeque::new();
        let mut i: usize = 0;
        while i < max_entities
            invariant
                i <= max_entities,
                free_ids@ == Seq::new(i as nat, |j: int| j as usize),
            decreases max_entities - i,
        {
            free_ids.push_back(i);
            i = i + 1;
        }
        EntityManager { free_ids }
    }

    /// How many ids are free.
    pub fn num_free(&self) -> (n: usize)
        ensures
            n == self@.len(),
    {
        self.free_ids.len()
    }

    /// Take the first free id; there must be one.
    pub fn create_entity(&mut self) -> (id: EntityId)
        requires
            old(self)@.len() > 0,
        ensures
            id == old(self)@[0],
            final(self)@ == old(self)@.drop_first(),
    {
        match self.free_ids.pop_front() {
            Some(id) => id,
            None => {
                assert(false);
                0
            },
        }
    }

    /// Give `id` back; it is handed out again after the ids freed before it.
    pub fn destroy_entity(&mut self, id: EntityId)
        ensures
            final(self)@ == old(self)@.push(id),
    {
        self.free_ids.push_back(id);
    }
}

/// Taking an id out of a list of distinct free ids leaves distinct ids without it.
pub proof fn lemma_create_keeps_ids_distinct(free: Seq<EntityId>)
    requires
        free.len() > 0,
        free.no_duplicates(),
    ensures
        free.drop_first().no_duplicates(),
        !free.drop_first().contains(free[0]),
{
    assert forall|i: int| 0 <= i < free.drop_first().len() implies free.drop_first()[i]
        != free[0] by {
        assert(free.drop_first()[i] == free[i + 1]);
    }
}

/// Freeing an id that is not already free keeps the free ids distinct.
pub proof fn lemma_destroy_keeps_ids_distinct(free: Seq<EntityId>, id: EntityId)
    requires
        free.no_duplicates(),
        !free.contains(id),
    ensures
        free.push(id).no_duplicates(),
{
    assert forall|i: int, j: int|
        0 <= i < free.push(id).len() && 0 <= j < free.push(id).len() && i != j implies free.push(
        id,
    )[i] != free.push(id)[j] by {
        if i < free.len() && j == free.len() {
            assert(free.contains(free[i]));
        }
        if j < free.len() && i == free.len() {
            assert(free.contains(free[j]));
        }
    }
}

/// A call made on an entity manager.
#[derive(Debug, Clone, Copy, PartialEq, Eq, Structural)]
pub enum EntityCall {
    Create,
    Destroy(EntityId),
}

/// The free ids, in order, and the live ids, after `calls` made on `EntityManager::new(n)`;
/// `None` once a call is made that the manager does not allow: creating with no id free, or
/// destroying an id that is not live.
pub open spec fn after_calls(n: usize, calls: Seq<EntityCall>) -> Option<(Seq<EntityId>, Set<EntityId>)>
    decreases calls.len(),
{
    if calls.len() == 0 {
        Some((Seq::new(n as nat, |i: int| i as usize), Set::empty()))
    } else {
        match after_calls(n, calls.drop_last()) {
            None => None,
            Some(state) => {
                let free = state.0;
                let live = state.1;
                match calls.last() {
                    EntityCall::Create => if free.len() > 0 {
                        Some((free.drop_first(), live.insert(free[0])))
                    } else {
                        None
                    },
                    EntityCall::Destroy(id) => if live.contains(id) {
                        Some((free.push(id), live.remove(id)))
                    } else {
                        None
                    },
                }
            },
        }
    }
}

/// The free ids are distinct, none of them is live, and free and live ids together are
/// exactly `0 .. n`.
pub open spec fn ids_partition(free: Seq<EntityId>, live: Set<EntityId>, n: usize) -> bool {
    &&& free.no_duplicates()
    &&& forall|id: EntityId| #[trigger] free.contains(id) ==> id < n && !live.contains(id)
    &&& forall|id: EntityId| #[trigger] live.contains(id) ==> id < n
    &&& forall|id: EntityId| id < n ==> #[trigger] free.contains(id) || live.contains(id)
}

/// A new manager's free ids are `0 .. n` and no id is live.
pub proof fn lemma_new_partitions(n: usize)
    ensures
        ids_partition(Seq::new(n as nat, |i: int| i as usize), Set::empty(), n),
{
    let free = Seq::new(n as nat, |i: int| i as usize);
    assert forall|id: EntityId| #[trigger] free.contains(id) implies id < n by {
        let k = choose|k: int| 0 <= k < free.len() && free[k] == id;
    }
    assert forall|id: EntityId| id < n implies #[trigger] free.contains(id) by {
        assert(free[id as int] == id);
    }
}

/// Creating hands out a free id that is not live, and keeps the ids partitioned.
pub proof fn lemma_create_partitions(free: Seq<EntityId>, live: Set<EntityId>, n: usize)
    requires
        ids_partition(free, live, n),
        free.len() > 0,
    ensures
        !live.contains(free[0]),
        ids_partition(free.drop_first(), live.insert(free[0]), n),
{
    lemma_create_keeps_ids_distinct(free);
    assert(free.contains(free[0]));
    let rest = free.drop_first();
    assert forall|id: EntityId| #[trigger] rest.contains(id) implies id < n && !live.insert(free[0]).contains(id) by {
        let k = choose|k: int| 0 <= k < rest.len() && rest[k] == id;
        assert(free[k + 1] == id);
        assert(free.contains(id));
    }
    assert forall|id: EntityId| id < n implies #[trigger] rest.contains(id) || live.insert(free[0]).contains(id) by {
        if !live.contains(id) && id != free[0] {
            assert(free.contains(id));
            let k = choose|k: int| 0 <= k < free.len() && free[k] == id;
            assert(k != 0);
            assert(rest[k - 1] == id);
        }
    }
}

/// Destroying a live id frees it and keeps the ids partitioned.
pub proof fn lemma_destroy_partitions(free: Seq<EntityId>, live: Set<EntityId>, n: usize, id: EntityId)
    requires
        ids_partition(free, live, n),
        live.contains(id),
    ensures
        ids_partition(free.push(id), live.remove(id), n),
{
    lemma_destroy_keeps_ids_distinct(free, id);
    let next = free.push(id);
    assert forall|x: EntityId| #[trigger] next.contains(x) implies x < n && !live.remove(id).contains(x) by {
        let k = choose|k: int| 0 <= k < next.len() && next[k] == x;
        if k < free.len() {
            assert(free[k] == x);
            assert(free.contains(x));
        }
    }
    assert forall|x: EntityId| x < n implies #[trigger] next.contains(x) || live.remove(id).contains(x) by {
        if x == id {
            assert(next[free.len() as int] == id);
        } else if free.contains(x) {
            let k = choose|k: int| 0 <= k < free.len() && free[k] == x;
            assert(next[k] == x);
        }
    }
}

/// Whatever calls are made on `EntityManager::new(n)`, as long as every destroyed id is live,
/// the free ids are distinct and disjoint from the live ids, and together they are exactly
/// `0 .. n`: so creating never hands out an id that is still live.
pub proof fn lemma_ids_stay_partitioned(n: usize, calls: Seq<EntityCall>)
    ensures
        after_calls(n, calls) matches Some(state) ==> ids_partition(state.0, state.1, n),
        after_calls(n, calls) matches Some(state) ==> (state.0.len() > 0 ==> !state.1.contains(state.0[0])),
    decreases calls.len(),
{
    if calls.len() == 0 {
        lemma_new_partitions(n);
    } else {
        lemma_ids_stay_partitioned(n, calls.drop_last());
        if let Some(state) = after_calls(n, calls.drop_last()) {
            match calls.last() {
                EntityCall::Create => if state.0.len() > 0 {
                    lemma_create_partitions(state.0, state.1, n);
                },
                EntityCall::Destroy(id) => if state.1.contains(id) {
                    lemma_destroy_partitions(state.0, state.1, n, id);
                },
            }
        }
    }
    if let Some(state) = after_calls(n, calls) {
        if state.0.len() > 0 {
            assert(state.0.contains(state.0[0]));
        }
    }
}

/// A new manager hands out `0, 1, 2, ...` in turn.
pub proof fn lemma_new_hands_out_in_order(max_entities: usize, k: int)
    requires
        0 <= k < max_entities,
    ensures
        Seq::new(max_entities as nat, |i: int| i as usize).skip(k)[0] == k,
{
}

} // verus!
