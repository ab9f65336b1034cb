//! A recipe and its scaling to a number of servings.

use crate::error::RecipeError;
use crate::model::ingredient::{ingredient_views, Ingredient, IngredientView};
use crate::model::quantity::{
    lemma_scaled_doubling, lemma_scaled_same_servings, scaled_micros, scaling_fits,
    MICROS_PER_HUNDREDTH,
};
use vstd::prelude::*;

verus! {

/// The label of the noon meal.
pub const NOON: &'static str = "Midi";

/// The label of the evening meal.
pub const EVENING: &'static str = "Soir";

/// A recipe: what it is written for, what it is scaled to, what goes in and
/// how it is made.
#[derive(Debug)]
pub struct Recipe {
    pub name: String,
    /// The servings the ingredient quantities are written for.
    pub nbr_persons: u8,
    /// The servings asked for.
    pub configured_nbr_persons: u8,
    pub is_veggie: bool,
    pub ingredients: Vec<Ingredient>,
    pub steps: Vec<String>,
}

/// What a recipe says, as mathematical values.
pub struct RecipeView {
    pub name: Seq<char>,
    pub nbr_persons: int,
    pub configured_nbr_persons: int,
    pub is_veggie: bool,
    pub ingredients: Seq<IngredientView>,
    pub steps: Seq<Seq<char>>,
}

/// The views of the strings in `s`.
pub open spec fn text_views(s: Seq<String>) -> Seq<Seq<char>> {
    s.map_values(|t: String| t@)
}

impl View for Recipe {
    type V = RecipeView;

    open spec fn view(&self) -> RecipeView {
        RecipeView {
            name: self.name@,
            nbr_persons: self.nbr_persons as int,
            configured_nbr_persons: self.configured_nbr_persons as int,
            is_veggie: self.is_veggie,
            ingredients: ingredient_views(self.ingredients@),
            steps: text_views(self.steps@),
        }
    }
}

/// The ingredient `i`, written for `base` servings, restated for `configured`.
pub open spec fn scaled_ingredient(i: IngredientView, base: int, configured: int) -> IngredientView {
    IngredientView { micros: scaled_micros(i.micros, base, configured), ..i }
}

/// The recipe `r` with every quantity restated for the servings asked for.
pub open spec fn scaled_recipe(r: RecipeView) -> RecipeView
    recommends
        r.nbr_persons > 0,
{
    RecipeView {
        ingredients: r.ingredients.map_values(
            |i: IngredientView| scaled_ingredient(i, r.nbr_persons, r.configured_nbr_persons),
        ),
        ..r
    }
}

/// The recipe with no name, for one serving, with nothing in it.
pub open spec fn empty_recipe() -> RecipeView {
    RecipeView {
        name: Seq::<char>::empty(),
        nbr_persons: 1,
        configured_nbr_persons: 1,
        is_veggie: false,
        ingredients: Seq::<IngredientView>::empty(),
        steps: Seq::<Seq<char>>::empty(),
    }
}

/// Scaling a recipe to the servings it is written for keeps every name and
/// unit, moves no quantity by more than half a hundredth, and is the same
/// done twice as done once.
pub proof fn lemma_scale_same_servings(r: Recipe)
    requires
        r.nbr_persons >= 1,
        r.configured_nbr_persons == r.nbr_persons,
    ensures
        scaled_recipe(scaled_recipe(r@)) == scaled_recipe(r@),
        scaled_recipe(r@).ingredients.len() == r@.ingredients.len(),
        forall|i: int|
            0 <= i < r@.ingredients.len() ==> {
                let before = r@.ingredients[i];
                let after = #[trigger] scaled_recipe(r@).ingredients[i];
                &&& after.name == before.name
                &&& after.unit == before.unit
                &&& -5_000 <= after.micros - before.micros <= 5_000
            },
{
    let base = r.nbr_persons as int;
    assert forall|i: int| 0 <= i < r@.ingredients.len() implies {
        let before = r@.ingredients[i];
        let after = #[trigger] scaled_recipe(r@).ingredients[i];
        &&& after.name == before.name
        &&& after.unit == before.unit
        &&& -5_000 <= after.micros - before.micros <= 5_000
        &&& scaled_micros(after.micros, base, base) == after.micros
    } by {
        lemma_scaled_same_servings(r.ingredients@[i].quantity.micros as int, base);
    }
    assert(scaled_recipe(scaled_recipe(r@)).ingredients =~= scaled_recipe(r@).ingredients);
}

/// Doubling the servings asked for doubles every scaled quantity, to within
/// one hundredth, as long as no doubled quantity leaves the range.
pub proof fn lemma_scale_doubling(r: Recipe, doubled: Recipe)
    requires
        r.nbr_persons >= 1,
        doubled@ == (RecipeView { configured_nbr_persons: 2 * r@.configured_nbr_persons, ..r@ }),
        forall|i: int|
            0 <= i < r@.ingredients.len() ==> scaling_fits(
                (#[trigger] r@.ingredients[i]).micros,
                r@.nbr_persons,
                doubled@.configured_nbr_persons,
            ),
    ensures
        scaled_recipe(doubled@).ingredients.len() == scaled_recipe(r@).ingredients.len(),
        forall|i: int|
            0 <= i < r@.ingredients.len() ==> -MICROS_PER_HUNDREDTH <= (#[trigger] scaled_recipe(
                doubled@,
            ).ingredients[i]).micros - 2 * scaled_recipe(r@).ingredients[i].micros
                <= MICROS_PER_HUNDREDTH,
{
    assert forall|i: int| 0 <= i < r@.ingredients.len() implies -MICROS_PER_HUNDREDTH <= (
    #[trigger] scaled_recipe(doubled@).ingredients[i]).micros - 2 * scaled_recipe(
        r@,
    ).ingredients[i].micros <= MICROS_PER_HUNDREDTH by {
        assert(scaling_fits(
            r@.ingredients[i].micros,
            r@.nbr_persons,
            doubled@.configured_nbr_persons,
        ));
        lemma_scaled_doubling(
            r.ingredients@[i].quantity.micros as int,
            r.nbr_persons as int,
            r.configured_nbr_persons as int,
        );
    }
}

impl Clone for Recipe {
    fn clone(&self) -> (r: Self)
        ensures
            r@ == self@,
    {
        let mut ingredients: Vec<Ingredient> = Vec::new();
        let mut i: usize = 0;
        while i < self.ingredients.len()
            invariant
                i <= self.ingredients@.len(),
                ingredients@.len() == i,
                forall|k: int| 0 <= k < i ==> #[trigger] ingredients@[k] == self.ingredients@[k],
            decreases self.ingredients@.len() - i,
        {
            ingredients.push(self.ingredients[i].clone());
            i = i + 1;
        }
        assert(ingredients@ =~= self.ingredients@);
        let mut steps: Vec<String> = Vec::new();
        let mut j: usize = 0;
        while j < self.steps.len()
            invariant
                j <= self.steps@.len(),
                steps@.len() == j,
                forall|k: int| 0 <= k < j ==> #[trigger] steps@[k] == self.steps@[k],
            decreases self.steps@.len() - j,
        {
            steps.push(self.steps[j].clone());
            j = j + 1;
        }
        assert(steps@ =~= self.steps@);
        Recipe {
            name: self.name.clone(),
            nbr_persons: self.nbr_persons,
            configured_nbr_persons: self.configured_nbr_persons,
            is_veggie: self.is_veggie,
            ingredients,
            steps,
        }
    }
}

impl Recipe {
    /// A recipe with no name, for one serving, with nothing in it.
    pub fn new() -> (r: Recipe)
        ensures
            r@ == empty_recipe(),
    {
        let r = Recipe {
            name: String::new(),
            nbr_persons: 1,
            configured_nbr_persons: 1,
            is_veggie: false,
            ingredients: Vec::new(),
            steps: Vec::new(),
        };
        assert(ingredient_views(r.ingredients@) =~= Seq::<IngredientView>::empty());
        assert(text_views(r.steps@) =~= Seq::<Seq<char>>::empty());
        r
    }

    /// Gives the recipe the name `name`.
    pub fn set_name(&mut self, name: String)
        ensures
            final(self)@ == (RecipeView { name: name@, ..old(self)@ }),
    {
        self.name = name;
    }

    /// Adds `ingredient` at the end of the ingredient list.
    pub fn add_ingredient(&mut self, ingredient: Ingredient)
        ensures
            final(self)@ == (RecipeView {
                ingredients: old(self)@.ingredients.push(ingredient@),
                ..old(self)@
            }),
    {
        self.ingredients.push(ingredient);
        assert(ingredient_views(self.ingredients@) =~= ingredient_views(
            old(self).ingredients@,
        ).push(ingredient@));
    }

    /// Adds `step` at the end of the preparation steps.
    pub fn add_step(&mut self, step: String)
        ensures
            final(self)@ == (RecipeView { steps: old(self)@.steps.push(step@), ..old(self)@ }),
    {
        self.steps.push(step);
        assert(text_views(self.steps@) =~= text_views(old(self).steps@).push(step@));
    }

    /// Restates every quantity for the servings asked for: each becomes
    /// `quantity / nbr_persons * configured_nbr_persons`, rounded to
    /// hundredths with ties away from zero. A recipe written for zero
    /// servings cannot be scaled and is left as it is.
    pub fn sync_with_configured_nbr_persons(&mut self) -> (r: Result<(), RecipeError>)
        ensures
            old(self).nbr_persons == 0 ==> r == Err::<(), RecipeError>(
                RecipeError::DivisionByZeroServings,
            ) && final(self)@ == old(self)@,
            old(self).nbr_persons > 0 ==> r is Ok && final(self)@ == scaled_recipe(old(self)@),
    {
        if self.nbr_persons == 0 {
            return Err(RecipeError::DivisionByZeroServings);
        }
        let mut scaled: Vec<Ingredient> = Vec::new();
        let mut i: usize = 0;
        while i < self.ingredients.len()
            invariant
                i <= self.ingredients@.len(),
                self.nbr_persons > 0,
                scaled@.len() == i,
                forall|k: int|
                    0 <= k < i ==> (#[trigger] scaled@[k])@ == scaled_ingredient(
                        self.ingredients@[k]@,
                        self.nbr_persons as int,
                        self.configured_nbr_persons as int,
                    ),
            decreases self.ingredients@.len() - i,
        {
            let ingredient: &Ingredient = &self.ingredients[i];
            scaled.push(
                Ingredient {
                    name: ingredient.name.clone(),
                    unit: ingredient.unit.clone(),
                    quantity: ingredient.quantity.scaled(
                        self.nbr_persons,
                        self.configured_nbr_persons,
                    ),
                },
            );
            i = i + 1;
        }
        assert(ingredient_views(scaled@) =~= scaled_recipe(self@).ingredients);
        self.ingredients = scaled;
        Ok(())
    }
}

} // verus!
