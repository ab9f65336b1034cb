//! A day of the week with its two meals.

use crate::controller::main_controller::RecipeSlot;
use crate::model::recipe::{Recipe, RecipeView};
use vstd::prelude::*;

verus! {

pub const MONDAY: &'static str = "Lundi";

pub const TUESDAY: &'static str = "Mardi";

pub const WEDNESDAY: &'static str = "Mercredi";

pub const THURSDAY: &'static str = "Jeudi";

pub const FRIDAY: &'static str = "Vendredi";

pub const SATURDAY: &'static str = "Samedi";

pub const SUNDAY: &'static str = "Dimanche";

/// A day: its name, the slots of its two meals, and the recipes chosen for
/// them, if any.
#[derive(Debug)]
pub struct WeekDay {
    pub name: String,
    pub noon_recipe_slot: RecipeSlot,
    pub evening_recipe_slot: RecipeSlot,
    pub noon_recipe: Option<Recipe>,
    pub evening_recipe: Option<Recipe>,
}

/// What a day says, as mathematical values.
pub struct WeekDayView {
    pub name: Seq<char>,
    pub noon_recipe_slot: RecipeSlot,
    pub evening_recipe_slot: RecipeSlot,
    pub noon_recipe: Option<RecipeView>,
    pub evening_recipe: Option<RecipeView>,
}

/// The view of a recipe that may be missing.
pub open spec fn recipe_option_view(r: Option<Recipe>) -> Option<RecipeView> {
    match r {
        Some(recipe) => Some(recipe@),
        None => None,
    }
}

impl View for WeekDay {
    type V = WeekDayView;

    open spec fn view(&self) -> WeekDayView {
        WeekDayView {
            name: self.name@,
            noon_recipe_slot: self.noon_recipe_slot,
            evening_recipe_slot: self.evening_recipe_slot,
            noon_recipe: recipe_option_view(self.noon_recipe),
            evening_recipe: recipe_option_view(self.evening_recipe),
        }
    }
}

/// The views of the days in `s`.
pub open spec fn week_day_views(s: Seq<WeekDay>) -> Seq<WeekDayView> {
    s.map_values(|d: WeekDay| d@)
}

/// A copy of a recipe that may be missing.
pub fn clone_recipe_option(r: &Option<Recipe>) -> (c: Option<Recipe>)
    ensures
        recipe_option_view(c) == recipe_option_view(*r),
{
    match r {
        Some(recipe) => Some(recipe.clone()),
        None => None,
    }
}

impl Clone for WeekDay {
    fn clone(&self) -> (r: Self)
        ensures
            r@ == self@,
    {
        WeekDay {
            name: self.name.clone(),
            noon_recipe_slot: self.noon_recipe_slot,
            evening_recipe_slot: self.evening_recipe_slot,
            noon_recipe: clone_recipe_option(&self.noon_recipe),
            evening_recipe: clone_recipe_option(&self.evening_recipe),
        }
    }
}

impl WeekDay {
    /// The day `name` with the given slots and no recipe yet.
    pub fn new(name: String, noon_recipe_slot: RecipeSlot, evening_recipe_slot: RecipeSlot) -> (r:
        WeekDay)
        ensures
            r@ == (WeekDayView {
                name: name@,
                noon_recipe_slot,
                evening_recipe_slot,
                noon_recipe: None,
                evening_recipe: None,
            }),
    {
        WeekDay { name, noon_recipe_slot, evening_recipe_slot, noon_recipe: None, evening_recipe: None }
    }
}

} // verus!
