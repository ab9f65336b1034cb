//! What is exported: the shopping list and the days with their recipes.

use crate::model::ingredient::{ingredient_views, Ingredient, IngredientView};
use crate::model::weekday::{week_day_views, WeekDay, WeekDayView};
use vstd::prelude::*;

verus! {

/// The shopping list of a week and the days that have a meal planned.
pub struct Menu {
    pub all_ingredients: Vec<Ingredient>,
    pub week_days: Vec<WeekDay>,
}

/// What a menu says, as mathematical values.
pub struct MenuView {
    pub all_ingredients: Seq<IngredientView>,
    pub week_days: Seq<WeekDayView>,
}

impl View for Menu {
    type V = MenuView;

    open spec fn view(&self) -> MenuView {
        MenuView {
            all_ingredients: ingredient_views(self.all_ingredients@),
            week_days: week_day_views(self.week_days@),
        }
    }
}

} // verus!
