use vstd::prelude::*;

use crate::data::ItemType;
use crate::enum_array::EnumDiscriminant;

verus! {

/// A way of turning some items into others.
///
/// `inputs` names each item at most once, with the amount consumed.
pub struct Recipe {
    pub inputs: Vec<(ItemType, usize)>,
    pub output: (ItemType, usize),
}

/// What a recipe consumes and what it produces.
pub type RecipeView = (Seq<(ItemType, usize)>, (ItemType, usize));

impl View for Recipe {
    type V = RecipeView;

    open spec fn view(&self) -> RecipeView {
        (self.inputs@, self.output)
    }
}

/// No item is listed twice among the inputs.
pub open spec fn distinct_inputs(inputs: Seq<(ItemType, usize)>) -> bool {
    forall|i: int, j: int|
        0 <= i < inputs.len() && 0 <= j < inputs.len() && i != j ==> #[trigger] inputs[i].0
            != #[trigger] inputs[j].0
}

impl Recipe {
    /// Each input item is listed once.
    pub open spec fn wf(&self) -> bool {
        distinct_inputs(self.inputs@)
    }

    /// A copy of this recipe.
    pub fn clone_recipe(&self) -> (r: Recipe)
        ensures
            r@ == self@,
    {
        let mut inputs: Vec<(ItemType, usize)> = Vec::new();
        let mut k: usize = 0;
        while k < self.inputs.len()
            invariant
                k <= self.inputs.len(),
                inputs@ == self.inputs@.take(k as int),
            decreases self.inputs.len() - k,
        {
            inputs.push(self.inputs[k]);
            assert(inputs@ =~= self.inputs@.take(k + 1));
            k = k + 1;
        }
        assert(self.inputs@.take(k as int) =~= self.inputs@);
        Recipe { inputs, output: self.output }
    }
}

/// Builds a recipe from its inputs and output.
pub fn make_recipe(inputs: Vec<(ItemType, usize)>, output: (ItemType, usize)) -> (r: Recipe)
    ensures
        r@ == (inputs@, output),
{
    Recipe { inputs, output }
}

/// Every recipe known to the game, in display order.
pub open spec fn spec_recipes() -> Seq<RecipeView> {
    seq![
        (seq![(ItemType::Stone, 4usize)], (ItemType::DarkStone, 1usize)),
        (seq![(ItemType::Dirt, 1usize), (ItemType::Stone, 2usize)], (ItemType::MossyStone, 2usize)),
        (seq![(ItemType::Copper, 1usize), (ItemType::Tin, 1usize)], (ItemType::Bronze, 2usize)),
        (seq![(ItemType::Iron, 1usize), (ItemType::Coal, 1usize)], (ItemType::Steel, 1usize)),
        (seq![(ItemType::Copper, 5usize)], (ItemType::CopperPickaxe, 1usize)),
        (seq![(ItemType::Bronze, 5usize)], (ItemType::BronzePickaxe, 1usize)),
        (seq![(ItemType::Iron, 5usize)], (ItemType::IronPickaxe, 1usize)),
        (seq![(ItemType::Steel, 5usize)], (ItemType::SteelPickaxe, 1usize)),
        (seq![(ItemType::MagicMetal, 5usize)], (ItemType::MagicMetalPickaxe, 1usize)),
    ]
}

/// The game's recipes: what each one consumes and what it makes, in display order.
pub proof fn lemma_recipe_table()
    ensures
        spec_recipes().len() == 9,
        spec_recipes()[0].0 == seq![(ItemType::Stone, 4usize)],
        spec_recipes()[0].1 == (ItemType::DarkStone, 1usize),
        spec_recipes()[1].0 == seq![(ItemType::Dirt, 1usize), (ItemType::Stone, 2usize)],
        spec_recipes()[1].1 == (ItemType::MossyStone, 2usize),
        spec_recipes()[2].0 == seq![(ItemType::Copper, 1usize), (ItemType::Tin, 1usize)],
        spec_recipes()[2].1 == (ItemType::Bronze, 2usize),
        spec_recipes()[3].0 == seq![(ItemType::Iron, 1usize), (ItemType::Coal, 1usize)],
        spec_recipes()[3].1 == (ItemType::Steel, 1usize),
        spec_recipes()[4].0 == seq![(ItemType::Copper, 5usize)],
        spec_recipes()[4].1 == (ItemType::CopperPickaxe, 1usize),
        spec_recipes()[5].0 == seq![(ItemType::Bronze, 5usize)],
        spec_recipes()[5].1 == (ItemType::BronzePickaxe, 1usize),
        spec_recipes()[6].0 == seq![(ItemType::Iron, 5usize)],
        spec_recipes()[6].1 == (ItemType::IronPickaxe, 1usize),
        spec_recipes()[7].0 == seq![(ItemType::Steel, 5usize)],
        spec_recipes()[7].1 == (ItemType::SteelPickaxe, 1usize),
        spec_recipes()[8].0 == seq![(ItemType::MagicMetal, 5usize)],
        spec_recipes()[8].1 == (ItemType::MagicMetalPickaxe, 1usize),
{
    assert(spec_recipes()[0].0 =~= seq![(ItemType::Stone, 4usize)]);
    assert(spec_recipes()[1].0 =~= seq![(ItemType::Dirt, 1usize), (ItemType::Stone, 2usize)]);
    assert(spec_recipes()[2].0 =~= seq![(ItemType::Copper, 1usize), (ItemType::Tin, 1usize)]);
    assert(spec_recipes()[3].0 =~= seq![(ItemType::Iron, 1usize), (ItemType::Coal, 1usize)]);
    assert(spec_recipes()[4].0 =~= seq![(ItemType::Copper, 5usize)]);
    assert(spec_recipes()[5].0 =~= seq![(ItemType::Bronze, 5usize)]);
    assert(spec_recipes()[6].0 =~= seq![(ItemType::Iron, 5usize)]);
    assert(spec_recipes()[7].0 =~= seq![(ItemType::Steel, 5usize)]);
    assert(spec_recipes()[8].0 =~= seq![(ItemType::MagicMetal, 5usize)]);
}

/// Every recipe known to the game, in display order.
pub fn recipes() -> (rs: Vec<Recipe>)
    ensures
        rs.len() == spec_recipes().len(),
        forall|i: int| 0 <= i < rs.len() ==> #[trigger] rs[i]@ == spec_recipes()[i],
        forall|i: int| 0 <= i < rs.len() ==> (#[trigger] rs[i]).wf(),
        rs.len() == 9,
        rs[0]@.0 == seq![(ItemType::Stone, 4usize)],
        rs[0]@.1 == (ItemType::DarkStone, 1usize),
        rs[1]@.0 == seq![(ItemType::Dirt, 1usize), (ItemType::Stone, 2usize)],
        rs[1]@.1 == (ItemType::MossyStone, 2usize),
        rs[2]@.0 == seq![(ItemType::Copper, 1usize), (ItemType::Tin, 1usize)],
        rs[2]@.1 == (ItemType::Bronze, 2usize),
        rs[3]@.0 == seq![(ItemType::Iron, 1usize), (ItemType::Coal, 1usize)],
        rs[3]@.1 == (ItemType::Steel, 1usize),
        rs[4]@.0 == seq![(ItemType::Copper, 5usize)],
        rs[4]@.1 == (ItemType::CopperPickaxe, 1usize),
        rs[5]@.0 == seq![(ItemType::Bronze, 5usize)],
        rs[5]@.1 == (ItemType::BronzePickaxe, 1usize),
        rs[6]@.0 == seq![(ItemType::Iron, 5usize)],
        rs[6]@.1 == (ItemType::IronPickaxe, 1usize),
        rs[7]@.0 == seq![(ItemType::Steel, 5usize)],
        rs[7]@.1 == (ItemType::SteelPickaxe, 1usize),
        rs[8]@.0 == seq![(ItemType::MagicMetal, 5usize)],
        rs[8]@.1 == (ItemType::MagicMetalPickaxe, 1usize),
{
    let mut rs: Vec<Recipe> = Vec::new();
    rs.push(make_recipe(vec![(ItemType::Stone, 4)], (ItemType::DarkStone, 1)));
    rs.push(make_recipe(vec![(ItemType::Dirt, 1), (ItemType::Stone, 2)], (ItemType::MossyStone, 2)));
    rs.push(make_recipe(vec![(ItemType::Copper, 1), (ItemType::Tin, 1)], (ItemType::Bronze, 2)));
    rs.push(make_recipe(vec![(ItemType::Iron, 1), (ItemType::Coal, 1)], (ItemType::Steel, 1)));
    rs.push(make_recipe(vec![(ItemType::Copper, 5)], (ItemType::CopperPickaxe, 1)));
    rs.push(make_recipe(vec![(ItemType::Bronze, 5)], (ItemType::BronzePickaxe, 1)));
    rs.push(make_recipe(vec![(ItemType::Iron, 5)], (ItemType::IronPickaxe, 1)));
    rs.push(make_recipe(vec![(ItemType::Steel, 5)], (ItemType::SteelPickaxe, 1)));
    rs.push(make_recipe(vec![(ItemType::MagicMetal, 5)], (ItemType::MagicMetalPickaxe, 1)));
    assert forall|i: int| 0 <= i < rs.len() implies #[trigger] rs[i]@ == spec_recipes()[i] by {
        assert(rs[i].inputs@ =~= spec_recipes()[i].0);
    }
    proof {
        lemma_recipe_table();
    }
    rs
}

/// How many of the item with index `idx` the inputs consume in total.
pub open spec fn input_amount(inputs: Seq<(ItemType, usize)>, idx: nat) -> nat
    decreases inputs.len(),
{
    if inputs.len() == 0 {
        0
    } else {
        let last = inputs.last();
        input_amount(inputs.drop_last(), idx) + if last.0.index_of() == idx {
            last.1 as nat
        } else {
            0
        }
    }
}

} // verus!
