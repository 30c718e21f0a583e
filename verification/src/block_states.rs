use vstd::prelude::*;

use crate::blocks::{same_kind, BlockState};
use crate::container::{count_of, craft_fits, has_ingredients, spec_craft};
use crate::data::ItemType;
use crate::enum_array::EnumDiscriminant;
use crate::geometry::BlockPos;
use crate::recipe::{Recipe, RecipeView};

verus! {

/// The state of every stateful block in the world, by position.
pub struct BlockStates {
    entries: Vec<(BlockPos, BlockState)>,
}

/// Some entry of `s` is at `pos`.
pub open spec fn has_key(s: Seq<(BlockPos, BlockState)>, pos: BlockPos) -> bool {
    exists|i: int| 0 <= i < s.len() && #[trigger] s[i].0 == pos
}

/// No two entries share a position.
pub open spec fn distinct_keys(s: Seq<(BlockPos, BlockState)>) -> bool {
    forall|i: int, j: int| 0 <= i < s.len() && 0 <= j < s.len() && i != j ==> #[trigger] s[i].0 != #[trigger] s[j].0
}

/// The entries as a map from position to state.
pub open spec fn entries_map(s: Seq<(BlockPos, BlockState)>) -> Map<BlockPos, BlockState> {
    Map::new(
        |pos: BlockPos| has_key(s, pos),
        |pos: BlockPos| s[choose|i: int| 0 <= i < s.len() && #[trigger] s[i].0 == pos].1,
    )
}

/// With distinct positions, the map gives each entry's state at its position.
proof fn lemma_entries_map_at(s: Seq<(BlockPos, BlockState)>, i: int)
    requires
        distinct_keys(s),
        0 <= i < s.len(),
    ensures
        entries_map(s).contains_key(s[i].0),
        entries_map(s)[s[i].0] == s[i].1,
{
    assert(has_key(s, s[i].0));
    let j = choose|j: int| 0 <= j < s.len() && #[trigger] s[j].0 == s[i].0;
    assert(j == i);
}

/// `after` is `before` with the crafter's recipe set to `recipe`; a chest is unchanged.
pub open spec fn recipe_set(before: BlockState, after: BlockState, recipe: RecipeView) -> bool {
    match before {
        BlockState::Crafter(c) => match after {
            BlockState::Crafter(c2) => c2.pos == c.pos && c2.inventory == c.inventory && (
            c2.recipe matches Some(r) && r@ == recipe),
            BlockState::Chest(_) => false,
        },
        BlockState::Chest(_) => after == before,
    }
}

/// A crafter with a recipe whose inputs it holds.
pub open spec fn working(s: BlockState) -> bool {
    match s {
        BlockState::Crafter(c) => match c.recipe {
            Some(r) => has_ingredients(c.inventory@, r.inputs@),
            None => false,
        },
        BlockState::Chest(_) => false,
    }
}

/// A working crafter whose recipe is well formed and whose output count has room.
pub open spec fn can_craft_once(s: BlockState) -> bool {
    match s {
        BlockState::Crafter(c) => match c.recipe {
            Some(r) => r.wf() && has_ingredients(c.inventory@, r.inputs@) && craft_fits(
                c.inventory@,
                r@,
            ),
            None => false,
        },
        BlockState::Chest(_) => false,
    }
}

/// `after` is the crafter `before` having crafted its recipe once.
pub open spec fn crafted_once(before: BlockState, after: BlockState) -> bool {
    match (before, after) {
        (BlockState::Crafter(c), BlockState::Crafter(c2)) => c2.pos == c.pos && c2.recipe == c.recipe
            && match c.recipe {
            Some(r) => c2.inventory@ == spec_craft(c.inventory@, r@),
            None => false,
        },
        _ => false,
    }
}

impl View for BlockStates {
    type V = Map<BlockPos, BlockState>;

    /// The state at each position that has one.
    closed spec fn view(&self) -> Map<BlockPos, BlockState> {
        entries_map(self.entries@)
    }
}

impl BlockStates {
    /// Positions are distinct and every stored container holds one count per item kind.
    pub closed spec fn wf(&self) -> bool {
        &&& distinct_keys(self.entries@)
        &&& forall|i: int| 0 <= i < self.entries.len() ==> (#[trigger] self.entries@[i]).1.items().wf()
    }

    /// Every stored container holds one count per item kind.
    pub proof fn lemma_stored_items_wf(&self, pos: BlockPos)
        requires
            self.wf(),
            self.view().contains_key(pos),
        ensures
            self.view()[pos].items().wf(),
    {
        let i = choose|i: int| 0 <= i < self.entries.len() && #[trigger] self.entries@[i].0 == pos;
        lemma_entries_map_at(self.entries@, i);
    }

    /// No block has state.
    pub fn new() -> (b: Self)
        ensures
            b.wf(),
            b.view() == Map::<BlockPos, BlockState>::empty(),
    {
        let b = BlockStates { entries: Vec::new() };
        assert(b.view() =~= Map::<BlockPos, BlockState>::empty());
        b
    }

    /// The entry at `pos`, if any.
    fn find(&self, pos: &BlockPos) -> (r: Option<usize>)
        ensures
            match r {
                Some(i) => i < self.entries.len() && self.entries@[i as int].0 == *pos,
                None => !has_key(self.entries@, *pos),
            },
    {
        let mut i: usize = 0;
        while i < self.entries.len()
            invariant
                i <= self.entries.len(),
                forall|j: int| 0 <= j < i ==> (#[trigger] self.entries@[j]).0 != *pos,
            decreases self.entries.len() - i,
        {
            if self.entries[i].0 == *pos {
                return Some(i);
            }
            i = i + 1;
        }
        None
    }

    /// Whether the block at `pos` has state.
    pub fn contains(&self, pos: &BlockPos) -> (b: bool)
        requires
            self.wf(),
        ensures
            b == self.view().contains_key(*pos),
    {
        self.find(pos).is_some()
    }

    /// The state of the block at `pos`, if it has one.
    pub fn get(&self, pos: &BlockPos) -> (s: Option<&BlockState>)
        requires
            self.wf(),
        ensures
            match s {
                Some(st) => self.view().contains_key(*pos) && *st == self.view()[*pos],
                None => !self.view().contains_key(*pos),
            },
    {
        match self.find(pos) {
            Some(i) => {
                proof { lemma_entries_map_at(self.entries@, i as int); }
                Some(&self.entries[i].1)
            },
            None => None,
        }
    }

    /// The positions of all blocks with state.
    pub fn positions(&self) -> (ps: Vec<BlockPos>)
        requires
            self.wf(),
        ensures
            forall|pos: BlockPos| #[trigger] ps@.contains(pos) <==> self.view().contains_key(pos),
            ps@.no_duplicates(),
    {
        let mut ps: Vec<BlockPos> = Vec::new();
        let mut i: usize = 0;
        while i < self.entries.len()
            invariant
                self.wf(),
                i <= self.entries.len(),
                ps.len() == i,
                forall|j: int| 0 <= j < i ==> #[trigger] ps@[j] == self.entries@[j].0,
            decreases self.entries.len() - i,
        {
            ps.push(self.entries[i].0);
            i = i + 1;
        }
        assert forall|pos: BlockPos| #[trigger] ps@.contains(pos) <==> self.view().contains_key(pos) by {
            if ps@.contains(pos) {
                let j = choose|j: int| 0 <= j < ps.len() && ps@[j] == pos;
                assert(self.entries@[j].0 == pos);
            }
            if self.view().contains_key(pos) {
                let j = choose|j: int| 0 <= j < self.entries.len() && #[trigger] self.entries@[j].0 == pos;
                assert(ps@[j] == pos);
            }
        }
        ps
    }

    /// Give the block at `pos` the state `state`, replacing any it had.
    pub fn insert(&mut self, pos: BlockPos, state: BlockState)
        requires
            old(self).wf(),
            state.items().wf(),
        ensures
            final(self).wf(),
            final(self).view() == old(self).view().insert(pos, state),
    {
        let ghost before = self.entries@;
        match self.find(&pos) {
            Some(i) => {
                self.entries.set(i, (pos, state));
                proof {
                    assert forall|a: int, b: int| 0 <= a < self.entries.len() && 0 <= b < self.entries.len() && a != b implies #[trigger] self.entries@[a].0 != #[trigger] self.entries@[b].0 by {
                        assert(before[a].0 == self.entries@[a].0);
                        assert(before[b].0 == self.entries@[b].0);
                    }
                    assert(self.view() =~= entries_map(before).insert(pos, state)) by {
                        lemma_entries_map_at(self.entries@, i as int);
                        assert forall|q: BlockPos| #[trigger] has_key(self.entries@, q) <==> has_key(before, q) || q == pos by {
                            if has_key(before, q) {
                                let j = choose|j: int| 0 <= j < before.len() && #[trigger] before[j].0 == q;
                                assert(self.entries@[j].0 == q);
                            }
                            if has_key(self.entries@, q) {
                                let j = choose|j: int| 0 <= j < self.entries.len() && #[trigger] self.entries@[j].0 == q;
                                assert(before[j].0 == q);
                            }
                        }
                        assert forall|q: BlockPos| q != pos && #[trigger] has_key(before, q) implies entries_map(self.entries@)[q] == entries_map(before)[q] by {
                            let j = choose|j: int| 0 <= j < before.len() && #[trigger] before[j].0 == q;
                            lemma_entries_map_at(before, j);
                            lemma_entries_map_at(self.entries@, j);
                        }
                    }
                }
            },
            None => {
                self.entries.push((pos, state));
                proof {
                    assert forall|a: int, b: int| 0 <= a < self.entries.len() && 0 <= b < self.entries.len() && a != b implies #[trigger] self.entries@[a].0 != #[trigger] self.entries@[b].0 by {
                        if a == before.len() {
                            assert(self.entries@[b] == before[b]);
                        } else if b == before.len() {
                            assert(self.entries@[a] == before[a]);
                        } else {
                            assert(self.entries@[a] == before[a]);
                            assert(self.entries@[b] == before[b]);
                        }
                    }
                    assert(self.view() =~= entries_map(before).insert(pos, state)) by {
                        lemma_entries_map_at(self.entries@, before.len() as int);
                        assert forall|q: BlockPos| #[trigger] has_key(self.entries@, q) <==> has_key(before, q) || q == pos by {
                            if has_key(before, q) {
                                let j = choose|j: int| 0 <= j < before.len() && #[trigger] before[j].0 == q;
                                assert(self.entries@[j].0 == q);
                            }
                            if has_key(self.entries@, q) && q != pos {
                                let j = choose|j: int| 0 <= j < self.entries.len() && #[trigger] self.entries@[j].0 == q;
                                assert(before[j].0 == q);
                            }
                            if q == pos {
                                assert(self.entries@[before.len() as int].0 == q);
                            }
                        }
                        assert forall|q: BlockPos| q != pos && #[trigger] has_key(before, q) implies entries_map(self.entries@)[q] == entries_map(before)[q] by {
                            let j = choose|j: int| 0 <= j < before.len() && #[trigger] before[j].0 == q;
                            lemma_entries_map_at(before, j);
                            assert(self.entries@[j] == before[j]);
                            lemma_entries_map_at(self.entries@, j);
                        }
                    }
                }
            },
        }
    }

    /// Put `count` of `item` into the block at `pos`, which must have state.
    pub fn add_item(&mut self, pos: &BlockPos, item: ItemType, count: usize)
        requires
            old(self).wf(),
            old(self).view().contains_key(*pos),
            count_of(old(self).view()[*pos].items()@, item) + count <= usize::MAX,
        ensures
            final(self).wf(),
            final(self).view().dom() == old(self).view().dom(),
            forall|q: BlockPos| q != *pos && #[trigger] old(self).view().contains_key(q) ==> final(self).view()[q] == old(self).view()[q],
            same_kind(old(self).view()[*pos], final(self).view()[*pos]),
            final(self).view()[*pos].items()@ == old(self).view()[*pos].items()@.update(
                item.index_of() as int,
                (count_of(old(self).view()[*pos].items()@, item) + count) as usize,
            ),
    {
        proof { self.lemma_stored_items_wf(*pos); }
        let mut state = match self.take(pos) {
            Some(st) => st,
            None => {
                assert(false);
                return;
            },
        };
        state.add_item(item, count);
        self.insert(*pos, state);
        assert(final(self).view().dom() =~= old(self).view().dom());
    }

    /// Take `count` of `item` out of the block at `pos`, which must have state and hold
    /// that many.
    pub fn remove_item(&mut self, pos: &BlockPos, item: ItemType, count: usize)
        requires
            old(self).wf(),
            old(self).view().contains_key(*pos),
            count_of(old(self).view()[*pos].items()@, item) >= count,
        ensures
            final(self).wf(),
            final(self).view().dom() == old(self).view().dom(),
            forall|q: BlockPos| q != *pos && #[trigger] old(self).view().contains_key(q) ==> final(self).view()[q] == old(self).view()[q],
            same_kind(old(self).view()[*pos], final(self).view()[*pos]),
            final(self).view()[*pos].items()@ == old(self).view()[*pos].items()@.update(
                item.index_of() as int,
                (count_of(old(self).view()[*pos].items()@, item) - count) as usize,
            ),
    {
        proof { self.lemma_stored_items_wf(*pos); }
        let mut state = match self.take(pos) {
            Some(st) => st,
            None => {
                assert(false);
                return;
            },
        };
        state.remove_item(item, count);
        self.insert(*pos, state);
        assert(self.view().dom() =~= old(self).view().dom());
    }

    /// Make the crafter at `pos`, if there is one, work on `recipe`; other blocks are left
    /// alone.
    pub fn set_recipe(&mut self, pos: &BlockPos, recipe: &Recipe)
        requires
            old(self).wf(),
        ensures
            final(self).wf(),
            final(self).view().dom() == old(self).view().dom(),
            forall|q: BlockPos| q != *pos && #[trigger] old(self).view().contains_key(q) ==> final(self).view()[q] == old(self).view()[q],
            old(self).view().contains_key(*pos) ==> recipe_set(
                old(self).view()[*pos],
                final(self).view()[*pos],
                recipe@,
            ),
    {
        proof {
            if self.view().contains_key(*pos) {
                self.lemma_stored_items_wf(*pos);
            }
        }
        let mut state = match self.take(pos) {
            Some(st) => st,
            None => {
                assert(self.view() =~= old(self).view());
                return;
            },
        };
        match &mut state {
            BlockState::Crafter(c) => c.set_recipe(recipe),
            BlockState::Chest(_) => {},
        }
        self.insert(*pos, state);
        assert(self.view().dom() =~= old(self).view().dom());
    }

    /// Whether the block at `pos` is a crafter with a recipe whose inputs it holds.
    pub fn is_working(&self, pos: &BlockPos) -> (b: bool)
        requires
            self.wf(),
        ensures
            b == (self.view().contains_key(*pos) && working(self.view()[*pos])),
    {
        match self.get(pos) {
            Some(BlockState::Crafter(c)) => {
                proof { self.lemma_stored_items_wf(*pos); }
                c.is_working()
            },
            _ => false,
        }
    }

    /// Complete one craft at the crafter at `pos`, which must be working.
    pub fn craft_once(&mut self, pos: &BlockPos)
        requires
            old(self).wf(),
            old(self).view().contains_key(*pos),
            can_craft_once(old(self).view()[*pos]),
        ensures
            final(self).wf(),
            final(self).view().dom() == old(self).view().dom(),
            forall|q: BlockPos| q != *pos && #[trigger] old(self).view().contains_key(q) ==> final(self).view()[q] == old(self).view()[q],
            crafted_once(old(self).view()[*pos], final(self).view()[*pos]),
    {
        proof { self.lemma_stored_items_wf(*pos); }
        let mut state = match self.take(pos) {
            Some(st) => st,
            None => {
                assert(false);
                return;
            },
        };
        match &mut state {
            BlockState::Crafter(c) => c.craft_once(),
            BlockState::Chest(_) => {},
        }
        self.insert(*pos, state);
        assert(self.view().dom() =~= old(self).view().dom());
    }

    /// Remove the state of the block at `pos` and hand it back, if it had one.
    pub fn take(&mut self, pos: &BlockPos) -> (taken: Option<BlockState>)
        requires
            old(self).wf(),
        ensures
            final(self).wf(),
            final(self).view() == old(self).view().remove(*pos),
            match taken {
                Some(st) => old(self).view().contains_key(*pos) && st == old(self).view()[*pos],
                None => !old(self).view().contains_key(*pos),
            },
    {
        let ghost before = self.entries@;
        match self.find(pos) {
            Some(i) => {
                proof { lemma_entries_map_at(before, i as int); }
                let (_, state) = self.entries.remove(i);
                proof {
                    let after = self.entries@;
                    assert forall|k: int| 0 <= k < after.len() implies #[trigger] after[k] == if k < i { before[k] } else { before[k + 1] } by {}
                    assert forall|a: int, b: int| 0 <= a < after.len() && 0 <= b < after.len() && a != b implies #[trigger] after[a].0 != #[trigger] after[b].0 by {
                        let a0 = if a < i { a } else { a + 1 };
                        let b0 = if b < i { b } else { b + 1 };
                        assert(after[a] == before[a0]);
                        assert(after[b] == before[b0]);
                    }
                    assert forall|k: int| 0 <= k < after.len() implies (#[trigger] after[k]).1.items().wf() by {
                        let k0 = if k < i { k } else { k + 1 };
                        assert(after[k] == before[k0]);
                    }
                    assert(self.view() =~= entries_map(before).remove(*pos)) by {
                        assert forall|q: BlockPos| #[trigger] has_key(after, q) <==> has_key(before, q) && q != *pos by {
                            if has_key(before, q) && q != *pos {
                                let j = choose|j: int| 0 <= j < before.len() && #[trigger] before[j].0 == q;
                                if j < i {
                                    assert(after[j].0 == q);
                                } else {
                                    assert(after[j - 1].0 == q);
                                }
                            }
                            if has_key(after, q) {
                                let j = choose|j: int| 0 <= j < after.len() && #[trigger] after[j].0 == q;
                                let j0 = if j < i { j } else { j + 1 };
                                assert(before[j0].0 == q);
                            }
                        }
                        assert forall|q: BlockPos| q != *pos && #[trigger] has_key(after, q) implies entries_map(after)[q] == entries_map(before)[q] by {
                            let j = choose|j: int| 0 <= j < after.len() && #[trigger] after[j].0 == q;
                            let j0 = if j < i { j } else { j + 1 };
                            assert(after[j] == before[j0]);
                            lemma_entries_map_at(after, j);
                            lemma_entries_map_at(before, j0);
                        }
                    }
                }
                Some(state)
            },
            None => {
                assert(self.view() =~= entries_map(before).remove(*pos));
                None
            },
        }
    }

    /// Remove the state of the block at `pos`, if it had one.
    pub fn remove(&mut self, pos: &BlockPos)
        requires
            old(self).wf(),
        ensures
            final(self).wf(),
            final(self).view() == old(self).view().remove(*pos),
    {
        let _ = self.take(pos);
    }
}

} // verus!
