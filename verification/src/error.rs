//! What can go wrong in the catalog and in scaling.

use vstd::prelude::*;

verus! {

/// The ways an operation on recipes fails.
#[derive(Clone, Copy, Debug, PartialEq, Eq, Structural)]
pub enum RecipeError {
    /// The text does not have the structure of a recipe.
    MalformedRecipe,
    /// The serving count is not a whole number from 1 to 255.
    InvalidServingCount,
    /// The quantity of an ingredient is not a decimal numeral.
    InvalidQuantity,
    /// The catalog holds no recipe of that name.
    RecipeNotFound,
    /// The recipe is written for zero servings.
    DivisionByZeroServings,
}

} // verus!
