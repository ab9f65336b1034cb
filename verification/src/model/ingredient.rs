//! One line of a recipe's ingredient list, or of a shopping list.

use crate::model::quantity::Quantity;
use vstd::prelude::*;

verus! {

/// The unit of an ingredient that is counted, not measured.
pub const WHOLE_INGREDIENT: &'static str = "__WHOLE_INGREDIENT__";

/// A named ingredient with its unit and quantity.
#[derive(Debug)]
pub struct Ingredient {
    pub name: String,
    pub unit: String,
    pub quantity: Quantity,
}

/// What an ingredient says: its name and unit as text, its quantity in
/// millionths.
pub struct IngredientView {
    pub name: Seq<char>,
    pub unit: Seq<char>,
    pub micros: int,
}

impl View for Ingredient {
    type V = IngredientView;

    open spec fn view(&self) -> IngredientView {
        IngredientView { name: self.name@, unit: self.unit@, micros: self.quantity.micros as int }
    }
}

impl Clone for Ingredient {
    fn clone(&self) -> (r: Self)
        ensures
            r == *self,
    {
        Ingredient { name: self.name.clone(), unit: self.unit.clone(), quantity: self.quantity }
    }
}

/// The views of the ingredients in `s`.
pub open spec fn ingredient_views(s: Seq<Ingredient>) -> Seq<IngredientView> {
    s.map_values(|i: Ingredient| i@)
}

impl Ingredient {
    /// Whether this ingredient and `other` are merged in a shopping list:
    /// same name and same unit, letter for letter.
    pub fn same_key(&self, other: &Ingredient) -> (r: bool)
        ensures
            r == (self@.name == other@.name && self@.unit == other@.unit),
    {
        self.name == other.name && self.unit == other.unit
    }
}

} // verus!
