use vstd::prelude::*;

use crate::entity::EntityId;

verus! {

/// Keeps entity ids and component rows in step: every registered entity owns one row of
/// each component column, and rows are packed at the front.
pub struct ComponentManager {
    // Mapping between EntityId -> component row
    entity_indices: Vec<Option<usize>>,
    // Mapping between component row -> EntityId
    index_entity: Vec<EntityId>,
}

/// The rows after appending a row for `id`.
pub open spec fn rows_after_add(rows: Seq<EntityId>, id: EntityId) -> Seq<EntityId> {
    rows.push(id)
}

/// The rows after removing row `index`: the last row moves into its place.
pub open spec fn rows_after_delete(rows: Seq<EntityId>, index: int) -> Seq<EntityId> {
    if index == rows.len() - 1 {
        rows.drop_last()
    } else {
        rows.update(index, rows.last()).drop_last()
    }
}

impl ComponentManager {
    /// The entity owning each row, in row order.
    pub closed spec fn rows(&self) -> Seq<EntityId> {
        self.index_entity@
    }

    /// The row of an entity, if it is registered.
    pub closed spec fn row_of(&self, id: EntityId) -> Option<usize> {
        if id < self.entity_indices.len() {
            self.entity_indices@[id as int]
        } else {
            None
        }
    }

    /// Rows and registrations describe each other exactly.
    pub closed spec fn wf(&self) -> bool {
        &&& forall|r: int|
            0 <= r < self.index_entity.len() ==> #[trigger] self.index_entity@[r]
                < self.entity_indices.len() && self.entity_indices@[self.index_entity@[r] as int]
                == Some(r as usize)
        &&& forall|e: int|
            0 <= e < self.entity_indices.len() && (#[trigger] self.entity_indices@[e]) is Some
                ==> self.entity_indices@[e]->0 < self.index_entity.len()
                && self.index_entity@[self.entity_indices@[e]->0 as int] == e
    }

    /// A manager with no entities.
    pub fn new() -> (m: Self)
        ensures
            m.wf(),
            m.rows() == Seq::<EntityId>::empty(),
            forall|id: EntityId| m.row_of(id) is None,
    {
        ComponentManager { entity_indices: Vec::new(), index_entity: Vec::new() }
    }

    /// The number of entities currently registered.
    pub fn num_entities(&self) -> (n: usize)
        ensures
            n == self.rows().len(),
    {
        self.index_entity.len()
    }

    /// Whether the entity is registered.
    pub fn contains_entity(&self, id: EntityId) -> (b: bool)
        ensures
            b == self.row_of(id) is Some,
    {
        id < self.entity_indices.len() && self.entity_indices[id].is_some()
    }

    /// The row of a registered entity.
    pub fn get_entity_index(&self, id: EntityId) -> (index: usize)
        requires
            self.row_of(id) is Some,
        ensures
            Some(index) == self.row_of(id),
    {
        match self.entity_indices[id] {
            Some(index) => index,
            None => {
                assert(false);
                0
            },
        }
    }

    /// Register a new entity; its row goes at the end.
    pub fn add_entity(&mut self, id: EntityId)
        requires
            old(self).wf(),
            old(self).row_of(id) is None,
            id < usize::MAX,
        ensures
            final(self).wf(),
            final(self).rows() == rows_after_add(old(self).rows(), id),
            final(self).row_of(id) == Some(old(self).rows().len() as usize),
            forall|e: EntityId| e != id ==> final(self).row_of(e) == old(self).row_of(e),
    {
        let ghost old_indices = self.entity_indices@;
        let ghost old_rows = self.index_entity@;
        if id >= self.entity_indices.len() {
            while self.entity_indices.len() <= id
                invariant
                    id < usize::MAX,
                    self.index_entity@ == old_rows,
                    old_indices.len() <= self.entity_indices.len() <= id + 1,
                    forall|e: int|
                        0 <= e < self.entity_indices.len() ==> #[trigger] self.entity_indices@[e]
                            == if e < old_indices.len() {
                            old_indices[e]
                        } else {
                            None
                        },
                decreases id + 1 - self.entity_indices.len(),
            {
                self.entity_indices.push(None);
            }
        }
        assert(id < self.entity_indices.len());
        assert(forall|e: int|
            0 <= e < self.entity_indices.len() ==> #[trigger] self.entity_indices@[e] == if e
                < old_indices.len() {
                old_indices[e]
            } else {
                None
            });
        let index = self.index_entity.len();
        self.entity_indices.set(id, Some(index));
        self.index_entity.push(id);
        assert forall|r: int| 0 <= r < self.index_entity.len() implies #[trigger] self.index_entity@[r]
            < self.entity_indices.len() && self.entity_indices@[self.index_entity@[r] as int]
            == Some(r as usize) by {
            if r < old_rows.len() {
                assert(old_rows[r] != id);
            }
        }
        assert forall|e: EntityId| e != id implies self.row_of(e) == old(self).row_of(e) by {
            if (e as int) < self.entity_indices.len() && (e as int) >= old_indices.len() {
                assert(self.entity_indices@[e as int] == None::<usize>);
            }
        }
    }

    /// Unregister an entity; the last row moves into the freed row.
    pub fn delete_entity(&mut self, id: EntityId)
        requires
            old(self).wf(),
            old(self).row_of(id) is Some,
        ensures
            final(self).wf(),
            final(self).rows() == rows_after_delete(
                old(self).rows(),
                old(self).row_of(id)->0 as int,
            ),
            final(self).row_of(id) is None,
            old(self).row_of(id)->0 < old(self).rows().len() - 1 ==> final(self).row_of(
                old(self).rows().last(),
            ) == old(self).row_of(id),
            forall|e: EntityId|
                e != id && e != old(self).rows().last() ==> final(self).row_of(e) == old(
                    self,
                ).row_of(e),
    {
        let index = self.get_entity_index(id);
        let ghost old_rows = self.index_entity@;
        self.index_entity.swap_remove(index);
        self.entity_indices.set(id, None);
        if index == self.index_entity.len() {
            assert(self.index_entity@ =~= rows_after_delete(old_rows, index as int));
            return;
        }
        let swapped_entity = self.index_entity[index];
        self.entity_indices.set(swapped_entity, Some(index));
        assert(self.index_entity@ =~= rows_after_delete(old_rows, index as int));
    }
}

/// Deleting the entity that was just added gives back the rows there were before.
pub proof fn lemma_delete_undoes_add(rows: Seq<EntityId>, id: EntityId)
    ensures
        rows_after_delete(rows_after_add(rows, id), rows.len() as int) == rows,
{
    assert(rows_after_delete(rows_after_add(rows, id), rows.len() as int) =~= rows);
}

/// Deleting keeps every other entity's rows: the remaining entities are the old ones
/// without the deleted one.
pub proof fn lemma_delete_keeps_others(rows: Seq<EntityId>, index: int)
    requires
        0 <= index < rows.len(),
    ensures
        rows_after_delete(rows, index).len() == rows.len() - 1,
        forall|r: int|
            0 <= r < rows.len() && r != index ==> rows_after_delete(rows, index).contains(
                #[trigger] rows[r],
            ),
{
    let after = rows_after_delete(rows, index);
    assert forall|r: int| 0 <= r < rows.len() && r != index implies after.contains(
        #[trigger] rows[r],
    ) by {
        if r == rows.len() - 1 {
            assert(after[index] == rows[r]);
        } else {
            assert(after[r] == rows[r]);
        }
    }
}

} // verus!
