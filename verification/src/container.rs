use vstd::prelude::*;

use crate::data::{item_at, lemma_item_at_index, lemma_item_index_injective, lemma_variant_counts, ItemType};
use crate::enum_array::{EnumArray, EnumDiscriminant};
use crate::recipe::{distinct_inputs, input_amount, recipes, spec_recipes, Recipe, RecipeView};

verus! {

/// Something that stores items: how many of each kind it holds.
pub struct Container {
    pub items: EnumArray<usize, ItemType>,
}

/// The player's own item store.
pub type Inventory = Container;

impl View for Container {
    type V = Seq<usize>;

    /// The count of each item, indexed by the item's variant index.
    open spec fn view(&self) -> Seq<usize> {
        self.items@
    }
}

/// The count of `item` in `counts`.
pub open spec fn count_of(counts: Seq<usize>, item: ItemType) -> usize {
    counts[item.index_of() as int]
}

/// Every input of a recipe is present in at least the amount the recipe consumes.
pub open spec fn has_ingredients(counts: Seq<usize>, inputs: Seq<(ItemType, usize)>) -> bool {
    forall|k: int| 0 <= k < inputs.len() ==> count_of(counts, #[trigger] inputs[k].0) >= inputs[k].1
}

/// The counts after the inputs have been taken out.
pub open spec fn after_inputs(counts: Seq<usize>, inputs: Seq<(ItemType, usize)>) -> Seq<usize> {
    Seq::new(counts.len(), |j: int| (counts[j] - input_amount(inputs, j as nat)) as usize)
}

/// The counts after crafting a recipe once: the inputs go, the output arrives.
pub open spec fn spec_craft(counts: Seq<usize>, recipe: RecipeView) -> Seq<usize> {
    let rest = after_inputs(counts, recipe.0);
    let out = recipe.1.0.index_of() as int;
    rest.update(out, (rest[out] + recipe.1.1) as usize)
}

/// The counts left after crafting do not overflow at the output item.
pub open spec fn craft_fits(counts: Seq<usize>, recipe: RecipeView) -> bool {
    after_inputs(counts, recipe.0)[recipe.1.0.index_of() as int] + recipe.1.1 <= usize::MAX
}

/// The recipes, among all recipes in order, whose ingredients `counts` holds.
pub open spec fn craftable(counts: Seq<usize>) -> Seq<RecipeView> {
    spec_recipes().filter(|r: RecipeView| has_ingredients(counts, r.0))
}

/// Each item kind with its count, in variant order.
pub open spec fn item_counts(counts: Seq<usize>) -> Seq<(ItemType, usize)> {
    Seq::new(counts.len(), |i: int| (item_at(i), counts[i]))
}

/// The item kinds held at least once, with their counts, in variant order.
pub open spec fn nonempty(counts: Seq<usize>) -> Seq<(ItemType, usize)> {
    item_counts(counts).filter(|e: (ItemType, usize)| e.1 > 0)
}

/// An item that no entry names is consumed in amount 0.
proof fn lemma_input_amount_absent(inputs: Seq<(ItemType, usize)>, idx: nat)
    requires
        forall|k: int| 0 <= k < inputs.len() ==> (#[trigger] inputs[k]).0.index_of() != idx,
    ensures
        input_amount(inputs, idx) == 0,
    decreases inputs.len(),
{
    if inputs.len() > 0 {
        let front = inputs.drop_last();
        assert forall|k: int| 0 <= k < front.len() implies (#[trigger] front[k]).0.index_of()
            != idx by {
            assert(front[k] == inputs[k]);
        }
        lemma_input_amount_absent(front, idx);
    }
}

/// With each item listed once, an item is consumed in exactly its listed amount.
proof fn lemma_input_amount_listed(inputs: Seq<(ItemType, usize)>, k: int)
    requires
        distinct_inputs(inputs),
        0 <= k < inputs.len(),
    ensures
        input_amount(inputs, inputs[k].0.index_of()) == inputs[k].1,
    decreases inputs.len(),
{
    let idx = inputs[k].0.index_of();
    let front = inputs.drop_last();
    if k == inputs.len() - 1 {
        assert forall|m: int| 0 <= m < front.len() implies (#[trigger] front[m]).0.index_of()
            != idx by {
            assert(front[m] == inputs[m]);
            lemma_item_index_injective(inputs[m].0, inputs[k].0);
        }
        lemma_input_amount_absent(front, idx);
    } else {
        assert(front[k] == inputs[k]);
        assert(distinct_inputs(front)) by {
            assert forall|i: int, j: int|
                0 <= i < front.len() && 0 <= j < front.len() && i != j implies #[trigger] front[i].0
                != #[trigger] front[j].0 by {
                assert(front[i] == inputs[i]);
                assert(front[j] == inputs[j]);
            }
        }
        lemma_input_amount_listed(front, k);
        lemma_item_index_injective(inputs.last().0, inputs[k].0);
    }
}

/// With the ingredients present, taking the inputs out never goes below zero.
proof fn lemma_ingredients_cover(counts: Seq<usize>, inputs: Seq<(ItemType, usize)>, j: int)
    requires
        distinct_inputs(inputs),
        has_ingredients(counts, inputs),
        counts.len() == ItemType::COUNT,
        0 <= j < counts.len(),
    ensures
        counts[j] >= input_amount(inputs, j as nat),
{
    if exists|k: int| 0 <= k < inputs.len() && (#[trigger] inputs[k]).0.index_of() == j {
        let k = choose|k: int| 0 <= k < inputs.len() && (#[trigger] inputs[k]).0.index_of() == j;
        lemma_input_amount_listed(inputs, k);
        assert(count_of(counts, inputs[k].0) >= inputs[k].1);
    } else {
        lemma_input_amount_absent(inputs, j as nat);
    }
}

impl Container {
    /// Holds one count per item kind.
    pub open spec fn wf(&self) -> bool {
        self.items.wf()
    }

    /// An empty container.
    pub fn new() -> (c: Self)
        ensures
            c.wf(),
            c@ == Seq::new(ItemType::COUNT as nat, |i: int| 0usize),
    {
        let mut v: Vec<usize> = Vec::new();
        let mut i: usize = 0;
        while i < ItemType::COUNT
            invariant
                i <= ItemType::COUNT,
                v@ == Seq::new(i as nat, |j: int| 0usize),
            decreases ItemType::COUNT - i,
        {
            v.push(0);
            i = i + 1;
        }
        Container { items: EnumArray::from_vec(v) }
    }

    /// How many of `item` are held.
    pub fn count(&self, item: ItemType) -> (n: usize)
        requires
            self.wf(),
        ensures
            n == count_of(self@, item),
    {
        *self.items.index(&item)
    }

    /// Add `count` of `item`.
    pub fn add_item(&mut self, item: ItemType, count: usize)
        requires
            old(self).wf(),
            count_of(old(self)@, item) + count <= usize::MAX,
        ensures
            final(self).wf(),
            final(self)@ == old(self)@.update(
                item.index_of() as int,
                (count_of(old(self)@, item) + count) as usize,
            ),
    {
        let n = *self.items.index(&item);
        self.items.set(&item, n + count);
    }

    /// Take out `count` of `item`; at least that many must be held.
    pub fn remove_item(&mut self, item: ItemType, count: usize)
        requires
            old(self).wf(),
            count_of(old(self)@, item) >= count,
        ensures
            final(self).wf(),
            final(self)@ == old(self)@.update(
                item.index_of() as int,
                (count_of(old(self)@, item) - count) as usize,
            ),
    {
        let n = *self.items.index(&item);
        self.items.set(&item, n - count);
    }

    /// The item kinds held at least once, with their counts, in variant order.
    pub fn nonempty_items(&self) -> (v: Vec<(ItemType, usize)>)
        requires
            self.wf(),
        ensures
            v@ == nonempty(self@),
    {
        let ghost all = item_counts(self@);
        let ghost pred = |e: (ItemType, usize)| e.1 > 0;
        proof { lemma_variant_counts(); }
        let mut v: Vec<(ItemType, usize)> = Vec::new();
        let mut i: usize = 0;
        while i < ItemType::COUNT
            invariant
                self.wf(),
                ItemType::COUNT == 20,
                all == item_counts(self@),
                pred == (|e: (ItemType, usize)| e.1 > 0),
                i <= ItemType::COUNT,
                v@ == all.take(i as int).filter(pred),
            decreases ItemType::COUNT - i,
        {
            let item = ItemType::from_index(i);
            let n = *self.items.get_at(i);
            assert(all.take(i + 1).drop_last() =~= all.take(i as int));
            assert(all.take(i + 1).last() == (item, n));
            reveal_with_fuel(Seq::filter, 1);
            if n > 0 {
                v.push((item, n));
            }
            i = i + 1;
        }
        assert(all.take(i as int) =~= all);
        v
    }

    /// Whether every input of `recipe` is held in the amount it needs.
    pub fn can_craft(&self, recipe: &Recipe) -> (b: bool)
        requires
            self.wf(),
        ensures
            b == has_ingredients(self@, recipe.inputs@),
    {
        let mut k: usize = 0;
        while k < recipe.inputs.len()
            invariant
                self.wf(),
                k <= recipe.inputs.len(),
                has_ingredients(self@, recipe.inputs@.take(k as int)),
            decreases recipe.inputs.len() - k,
        {
            let (item, amount) = recipe.inputs[k];
            if self.count(item) < amount {
                return false;
            }
            assert forall|m: int| 0 <= m < k + 1 implies count_of(
                self@,
                #[trigger] recipe.inputs@.take(k + 1)[m].0,
            ) >= recipe.inputs@.take(k + 1)[m].1 by {
                if m < k {
                    assert(recipe.inputs@.take(k as int)[m] == recipe.inputs@.take(k + 1)[m]);
                }
            }
            k = k + 1;
        }
        assert(recipe.inputs@.take(k as int) =~= recipe.inputs@);
        true
    }

    /// The recipes whose ingredients are all held, in the order of `recipes()`.
    pub fn get_craftable_recipes(&self) -> (rs: Vec<Recipe>)
        requires
            self.wf(),
        ensures
            rs@.map_values(|r: Recipe| r@) == craftable(self@),
            forall|i: int| 0 <= i < rs.len() ==> (#[trigger] rs[i]).wf(),
    {
        let mut all = recipes();
        let ghost total = spec_recipes();
        let ghost pred = |r: RecipeView| has_ingredients(self@, r.0);
        let mut out: Vec<Recipe> = Vec::new();
        let mut taken: usize = 0;
        while all.len() > 0
            invariant
                self.wf(),
                total == spec_recipes(),
                pred == (|r: RecipeView| has_ingredients(self@, r.0)),
                taken + all.len() == total.len(),
                forall|i: int| 0 <= i < all.len() ==> #[trigger] all[i]@ == total[taken + i],
                forall|i: int| 0 <= i < all.len() ==> (#[trigger] all[i]).wf(),
                forall|i: int| 0 <= i < out.len() ==> (#[trigger] out[i]).wf(),
                out@.map_values(|r: Recipe| r@) == total.take(taken as int).filter(pred),
            decreases all.len(),
        {
            let r = all.remove(0);
            assert(r@ == total[taken as int]);
            let ok = self.can_craft(&r);
            let ghost before = out@;
            assert(total.take(taken + 1).drop_last() =~= total.take(taken as int));
            assert(total.take(taken + 1).last() == r@);
            assert(pred(r@) == ok);
            reveal_with_fuel(Seq::filter, 1);
            if ok {
                out.push(r);
                assert(out@.map_values(|r: Recipe| r@) =~= before.map_values(|r: Recipe| r@).push(
                    r@,
                ));
            } else {
                assert(out@ == before);
            }
            assert forall|i: int| 0 <= i < all.len() implies #[trigger] all[i]@ == total[taken + 1
                + i] by {}
            taken = taken + 1;
        }
        assert(total.take(taken as int) =~= total);
        out
    }

    /// Craft `recipe` once: take out its inputs, then add its output.
    /// The ingredients must be held.
    pub fn craft_recipe(&mut self, recipe: &Recipe)
        requires
            old(self).wf(),
            recipe.wf(),
            has_ingredients(old(self)@, recipe.inputs@),
            craft_fits(old(self)@, recipe@),
        ensures
            final(self).wf(),
            final(self)@ == spec_craft(old(self)@, recipe@),
    {
        let ghost start = self@;
        let ghost inputs = recipe.inputs@;
        let mut k: usize = 0;
        assert(after_inputs(start, inputs.take(0)) =~= start) by {
            assert forall|j: int| 0 <= j < start.len() implies #[trigger] input_amount(inputs.take(0), j as nat)
                == 0 by {
                lemma_input_amount_absent(inputs.take(0), j as nat);
            }
        }
        while k < recipe.inputs.len()
            invariant
                self.wf(),
                recipe.wf(),
                inputs == recipe.inputs@,
                start.len() == ItemType::COUNT,
                has_ingredients(start, inputs),
                k <= inputs.len(),
                self@ == after_inputs(start, inputs.take(k as int)),
            decreases inputs.len() - k,
        {
            let (item, amount) = recipe.inputs[k];
            let ghost idx = item.index_of();
            let ghost pre = inputs.take(k as int);
            let ghost post = inputs.take(k + 1);
            proof {
                lemma_item_index_injective(item, item);
                assert forall|m: int| 0 <= m < pre.len() implies (#[trigger] pre[m]).0.index_of()
                    != idx by {
                    assert(pre[m] == inputs[m]);
                    lemma_item_index_injective(inputs[m].0, item);
                }
                lemma_input_amount_absent(pre, idx);
                assert(count_of(start, inputs[k as int].0) >= inputs[k as int].1);
                assert(post.drop_last() =~= pre);
                assert(self@[idx as int] == start[idx as int]);
            }
            self.remove_item(item, amount);
            assert(self@ =~= after_inputs(start, post));
            k = k + 1;
        }
        assert(inputs.take(k as int) =~= inputs);
        assert forall|j: int| 0 <= j < start.len() implies start[j] >= #[trigger] input_amount(
            inputs,
            j as nat,
        ) by {
            lemma_ingredients_cover(start, inputs, j);
        }
        self.add_item(recipe.output.0, recipe.output.1);
        assert(self@ =~= spec_craft(start, recipe@));
    }
}

/// Adding then removing the same amount of an item gives back the same counts.
pub proof fn lemma_add_then_remove(counts: Seq<usize>, item: ItemType, n: usize)
    requires
        counts.len() == ItemType::COUNT,
        count_of(counts, item) + n <= usize::MAX,
    ensures
        ({
            let added = counts.update(item.index_of() as int, (count_of(counts, item) + n) as usize);
            added.update(item.index_of() as int, (count_of(added, item) - n) as usize) == counts
        }),
{
    lemma_item_index_injective(item, item);
    let added = counts.update(item.index_of() as int, (count_of(counts, item) + n) as usize);
    assert(added.update(item.index_of() as int, (count_of(added, item) - n) as usize) =~= counts);
}

/// The craftable recipes are exactly the known recipes whose ingredients are held, in the
/// order of `recipes()`.
pub proof fn lemma_craftable_exact(counts: Seq<usize>, r: RecipeView)
    ensures
        craftable(counts).contains(r) <==> spec_recipes().contains(r) && has_ingredients(counts, r.0),
{
    broadcast use vstd::seq_lib::group_filter_ensures;

    let pred = |x: RecipeView| has_ingredients(counts, x.0);
    if spec_recipes().contains(r) && has_ingredients(counts, r.0) {
        let i = choose|i: int| 0 <= i < spec_recipes().len() && spec_recipes()[i] == r;
        assert(pred(spec_recipes()[i]));
    }
    if craftable(counts).contains(r) {
        spec_recipes().lemma_filter_contains_rev(pred, r);
        let i = choose|i: int| 0 <= i < craftable(counts).len() && craftable(counts)[i] == r;
        assert(pred(craftable(counts)[i]));
    }
}

/// Crafting takes out exactly the listed amount of each input and adds the output;
/// items that are neither are untouched.
pub proof fn lemma_craft_effect(counts: Seq<usize>, recipe: RecipeView, item: ItemType)
    requires
        counts.len() == ItemType::COUNT,
        distinct_inputs(recipe.0),
        has_ingredients(counts, recipe.0),
        item != recipe.1.0,
    ensures
        forall|k: int| 0 <= k < recipe.0.len() && (#[trigger] recipe.0[k]).0 == item ==> count_of(spec_craft(counts, recipe), item) == count_of(counts, item) - recipe.0[k].1,
        (forall|k: int| 0 <= k < recipe.0.len() ==> (#[trigger] recipe.0[k]).0 != item) ==> count_of(spec_craft(counts, recipe), item) == count_of(counts, item),
{
    lemma_item_index_injective(item, recipe.1.0);
    lemma_item_index_injective(recipe.1.0, item);
    assert forall|k: int| 0 <= k < recipe.0.len() && (#[trigger] recipe.0[k]).0 == item implies count_of(spec_craft(counts, recipe), item) == count_of(counts, item) - recipe.0[k].1 by {
        lemma_input_amount_listed(recipe.0, k);
        lemma_ingredients_cover(counts, recipe.0, item.index_of() as int);
        let rest = after_inputs(counts, recipe.0);
        assert(rest[item.index_of() as int] == counts[item.index_of() as int] - recipe.0[k].1);
        assert(item.index_of() != recipe.1.0.index_of());
        assert(rest.len() == counts.len());
        assert(spec_craft(counts, recipe)[item.index_of() as int] == rest[item.index_of() as int]);
    }
    if forall|k: int| 0 <= k < recipe.0.len() ==> (#[trigger] recipe.0[k]).0 != item {
        assert forall|k: int| 0 <= k < recipe.0.len() implies (#[trigger] recipe.0[k]).0.index_of() != item.index_of() by {
            lemma_item_index_injective(recipe.0[k].0, item);
        }
        lemma_input_amount_absent(recipe.0, item.index_of());
        let rest = after_inputs(counts, recipe.0);
        assert(rest.len() == counts.len());
        assert(item.index_of() < counts.len());
        assert(spec_craft(counts, recipe).len() == counts.len());
        assert(spec_craft(counts, recipe)[item.index_of() as int] == rest[item.index_of() as int]);
    }
}

/// Crafting adds the output to what is left of it after the inputs go: when the output
/// is not an input, to what was there before.
pub proof fn lemma_craft_output(counts: Seq<usize>, recipe: RecipeView)
    requires
        counts.len() == ItemType::COUNT,
        forall|k: int| 0 <= k < recipe.0.len() ==> (#[trigger] recipe.0[k]).0 != recipe.1.0,
    ensures
        craft_fits(counts, recipe) <==> count_of(counts, recipe.1.0) + recipe.1.1 <= usize::MAX,
        craft_fits(counts, recipe) ==> count_of(spec_craft(counts, recipe), recipe.1.0) == count_of(counts, recipe.1.0) + recipe.1.1,
{
    let out = recipe.1.0;
    lemma_item_index_injective(out, out);
    assert forall|k: int| 0 <= k < recipe.0.len() implies (#[trigger] recipe.0[k]).0.index_of() != out.index_of() by {
        lemma_item_index_injective(recipe.0[k].0, out);
    }
    lemma_input_amount_absent(recipe.0, out.index_of());
}

/// Room for the output before crafting is room enough after the inputs go.
pub proof fn lemma_craft_fits_with_room(counts: Seq<usize>, recipe: RecipeView)
    requires
        counts.len() == ItemType::COUNT,
        distinct_inputs(recipe.0),
        has_ingredients(counts, recipe.0),
        count_of(counts, recipe.1.0) + recipe.1.1 <= usize::MAX,
    ensures
        craft_fits(counts, recipe),
{
    let out = recipe.1.0;
    lemma_item_index_injective(out, out);
    lemma_ingredients_cover(counts, recipe.0, out.index_of() as int);
}

/// The listed items are exactly those held at least once, each with its count, each once.
pub proof fn lemma_nonempty_exact(counts: Seq<usize>, item: ItemType, n: usize)
    requires
        counts.len() == ItemType::COUNT,
    ensures
        nonempty(counts).contains((item, n)) <==> n > 0 && count_of(counts, item) == n,
{
    broadcast use vstd::seq_lib::group_filter_ensures;

    let pred = |e: (ItemType, usize)| e.1 > 0;
    let all = item_counts(counts);
    lemma_variant_counts();
    lemma_item_at_index(item, 0);
    lemma_item_index_injective(item, item);
    if n > 0 && count_of(counts, item) == n {
        assert(all[item.index_of() as int] == (item, n));
    }
    if nonempty(counts).contains((item, n)) {
        all.lemma_filter_contains_rev(pred, (item, n));
        let i = choose|i: int| 0 <= i < all.len() && all[i] == (item, n);
        lemma_item_at_index(item, i);
        let j = choose|j: int| 0 <= j < nonempty(counts).len() && nonempty(counts)[j] == (item, n);
        assert(pred(nonempty(counts)[j]));
    }
}

} // verus!
