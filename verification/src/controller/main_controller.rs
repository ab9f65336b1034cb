//! The state of the planner and its answer to each message.
//!
//! The controller decides; it does not draw and does not touch files. An
//! update takes a message, changes the state, and says what is left for the
//! application to do.

use crate::error::RecipeError;
use crate::model::ingredient::Ingredient;
use crate::model::menu::{Menu, MenuView};
use crate::model::recipe::{scaled_recipe, Recipe, RecipeView};
use crate::model::weekday::{
    clone_recipe_option, recipe_option_view, week_day_views, WeekDay, WeekDayView, FRIDAY, MONDAY, SATURDAY, SUNDAY,
    THURSDAY, TUESDAY, WEDNESDAY,
};
use crate::repository::recipe_repository::{position_of, recipe_views};
use crate::search::{first_match, lemma_first_match_found};
use crate::service::recipe_service::{all_scalable, gathered, listed, RecipeService};
use vstd::prelude::*;
use vstd::view::View as _;

verus! {

/// The number of meals in a week.
pub const SLOT_COUNT: usize = 14;

/// One of the fourteen meals of a week.
#[derive(Debug, Clone, Copy, Eq, Hash, PartialEq, Structural)]
pub enum RecipeSlot {
    MondayNoon,
    MondayEvening,
    TuesdayNoon,
    TuesdayEvening,
    WednesdayNoon,
    WednesdayEvening,
    ThursdayNoon,
    ThursdayEvening,
    FridayNoon,
    FridayEvening,
    SaturdayNoon,
    SaturdayEvening,
    SundayNoon,
    SundayEvening,
}

impl RecipeSlot {
    /// The place of the slot in the week, from 0 for Monday noon to 13 for
    /// Sunday evening.
    pub open spec fn ordinal(self) -> int {
        match self {
            RecipeSlot::MondayNoon => 0,
            RecipeSlot::MondayEvening => 1,
            RecipeSlot::TuesdayNoon => 2,
            RecipeSlot::TuesdayEvening => 3,
            RecipeSlot::WednesdayNoon => 4,
            RecipeSlot::WednesdayEvening => 5,
            RecipeSlot::ThursdayNoon => 6,
            RecipeSlot::ThursdayEvening => 7,
            RecipeSlot::FridayNoon => 8,
            RecipeSlot::FridayEvening => 9,
            RecipeSlot::SaturdayNoon => 10,
            RecipeSlot::SaturdayEvening => 11,
            RecipeSlot::SundayNoon => 12,
            RecipeSlot::SundayEvening => 13,
        }
    }

    /// The slot at the place `i` of the week.
    pub open spec fn at(i: int) -> RecipeSlot {
        if i == 0 {
            RecipeSlot::MondayNoon
        } else if i == 1 {
            RecipeSlot::MondayEvening
        } else if i == 2 {
            RecipeSlot::TuesdayNoon
        } else if i == 3 {
            RecipeSlot::TuesdayEvening
        } else if i == 4 {
            RecipeSlot::WednesdayNoon
        } else if i == 5 {
            RecipeSlot::WednesdayEvening
        } else if i == 6 {
            RecipeSlot::ThursdayNoon
        } else if i == 7 {
            RecipeSlot::ThursdayEvening
        } else if i == 8 {
            RecipeSlot::FridayNoon
        } else if i == 9 {
            RecipeSlot::FridayEvening
        } else if i == 10 {
            RecipeSlot::SaturdayNoon
        } else if i == 11 {
            RecipeSlot::SaturdayEvening
        } else if i == 12 {
            RecipeSlot::SundayNoon
        } else {
            RecipeSlot::SundayEvening
        }
    }

    /// The place of the slot in the week.
    pub fn index(self) -> (i: usize)
        ensures
            i == self.ordinal(),
            i < SLOT_COUNT,
            RecipeSlot::at(i as int) == self,
    {
        match self {
            RecipeSlot::MondayNoon => 0,
            RecipeSlot::MondayEvening => 1,
            RecipeSlot::TuesdayNoon => 2,
            RecipeSlot::TuesdayEvening => 3,
            RecipeSlot::WednesdayNoon => 4,
            RecipeSlot::WednesdayEvening => 5,
            RecipeSlot::ThursdayNoon => 6,
            RecipeSlot::ThursdayEvening => 7,
            RecipeSlot::FridayNoon => 8,
            RecipeSlot::FridayEvening => 9,
            RecipeSlot::SaturdayNoon => 10,
            RecipeSlot::SaturdayEvening => 11,
            RecipeSlot::SundayNoon => 12,
            RecipeSlot::SundayEvening => 13,
        }
    }

    /// The slot at the place `i` of the week; none from 14 on.
    pub fn from_index(i: usize) -> (slot: Option<RecipeSlot>)
        ensures
            i < SLOT_COUNT ==> slot == Some(RecipeSlot::at(i as int)) && slot->0.ordinal() == i,
            i >= SLOT_COUNT ==> slot is None,
    {
        if i == 0 {
            Some(RecipeSlot::MondayNoon)
        } else if i == 1 {
            Some(RecipeSlot::MondayEvening)
        } else if i == 2 {
            Some(RecipeSlot::TuesdayNoon)
        } else if i == 3 {
            Some(RecipeSlot::TuesdayEvening)
        } else if i == 4 {
            Some(RecipeSlot::WednesdayNoon)
        } else if i == 5 {
            Some(RecipeSlot::WednesdayEvening)
        } else if i == 6 {
            Some(RecipeSlot::ThursdayNoon)
        } else if i == 7 {
            Some(RecipeSlot::ThursdayEvening)
        } else if i == 8 {
            Some(RecipeSlot::FridayNoon)
        } else if i == 9 {
            Some(RecipeSlot::FridayEvening)
        } else if i == 10 {
            Some(RecipeSlot::SaturdayNoon)
        } else if i == 11 {
            Some(RecipeSlot::SaturdayEvening)
        } else if i == 12 {
            Some(RecipeSlot::SundayNoon)
        } else if i == 13 {
            Some(RecipeSlot::SundayEvening)
        } else {
            None
        }
    }
}

/// What the user did.
#[derive(Debug, Clone)]
pub enum Message {
    SelectedRecipeSlot(RecipeSlot),
    ReturnButtonPressed,
    FilteredSlotRecipe(String),
    FilteringVeggieRecipes(bool),
    SelectedRecipe(RecipeSlot, Option<String>),
    GenerateRecipeDocument,
    IncrementedNbrPersonsOfRecipe(RecipeSlot, u8),
    DecrementedNbrPersonsOfRecipe(RecipeSlot, u8),
}

/// The screen that is shown.
#[derive(Debug, Clone, Copy, PartialEq, Eq, Structural)]
pub enum View {
    Main,
    RecipeSelection,
}

/// What is left for the application to do after an update.
pub enum Effect {
    /// Nothing: the state says it all.
    Nothing,
    /// Write this menu out.
    WriteMenu(Menu),
}

/// The name of the day at the place `k` of the week, from 0 for Monday.
pub open spec fn day_name(k: int) -> Seq<char> {
    if k == 0 {
        MONDAY@
    } else if k == 1 {
        TUESDAY@
    } else if k == 2 {
        WEDNESDAY@
    } else if k == 3 {
        THURSDAY@
    } else if k == 4 {
        FRIDAY@
    } else if k == 5 {
        SATURDAY@
    } else {
        SUNDAY@
    }
}

/// The seven days in order, each with its noon and evening slot and no
/// recipe.
pub open spec fn week() -> Seq<WeekDayView> {
    Seq::new(
        7,
        |k: int|
            WeekDayView {
                name: day_name(k),
                noon_recipe_slot: RecipeSlot::at(2 * k),
                evening_recipe_slot: RecipeSlot::at(2 * k + 1),
                noon_recipe: None,
                evening_recipe: None,
            },
    )
}

/// The state of the planner, as mathematical values.
pub struct ControllerView {
    /// The catalog.
    pub catalog: Seq<RecipeView>,
    /// The recipe chosen for each slot, by the slot's place in the week.
    pub selected_recipes: Seq<Option<RecipeView>>,
    /// The slot whose recipe is being chosen.
    pub slot_currently_in_edition: Option<RecipeSlot>,
    /// The filter typed for each slot, by the slot's place in the week.
    pub filters_on_recipes_slots: Seq<Option<Seq<char>>>,
    pub current_view: View,
    /// The days of the week, without recipes.
    pub week_days: Seq<WeekDayView>,
    /// The slots for which only vegetarian recipes are listed.
    pub slots_filtering_veggie_recipes: Seq<RecipeSlot>,
}

/// The view of a text that may be missing.
pub open spec fn text_option_view(t: Option<String>) -> Option<Seq<char>> {
    match t {
        Some(s) => Some(s@),
        None => None,
    }
}

/// The place of the first occurrence of `slot` in `slots`; the length of
/// `slots` where it does not occur.
pub open spec fn slot_position(slots: Seq<RecipeSlot>, slot: RecipeSlot) -> int {
    first_match(slots, is_slot(slot))
}

/// The condition of being the slot `slot`.
pub open spec fn is_slot(slot: RecipeSlot) -> spec_fn(RecipeSlot) -> bool {
    |s: RecipeSlot| s == slot
}

/// A slot occurs in `slots` exactly where its position is within them.
pub proof fn lemma_slot_position(slots: Seq<RecipeSlot>, slot: RecipeSlot)
    ensures
        0 <= slot_position(slots, slot) <= slots.len(),
        slots.contains(slot) <==> slot_position(slots, slot) < slots.len(),
        slot_position(slots, slot) < slots.len() ==> slots[slot_position(slots, slot)] == slot,
{
    let p = is_slot(slot);
    crate::search::lemma_first_match_is_first(slots, p);
    if slots.contains(slot) {
        let k = choose|k: int| 0 <= k < slots.len() && slots[k] == slot;
        assert(p(slots[k]));
    }
}

/// `slots` without the first occurrence of `slot`, whose place the last
/// slot takes.
pub open spec fn without_first(slots: Seq<RecipeSlot>, slot: RecipeSlot) -> Seq<RecipeSlot> {
    let at = slot_position(slots, slot);
    if at < slots.len() {
        slots.update(at, slots.last()).drop_last()
    } else {
        slots
    }
}

/// The recipe `r` asked for `n` servings more, up to 255.
pub open spec fn with_more_servings(r: RecipeView, n: int) -> RecipeView {
    RecipeView {
        configured_nbr_persons: if r.configured_nbr_persons + n > 255 {
            255
        } else {
            r.configured_nbr_persons + n
        },
        ..r
    }
}

/// The recipe `r` asked for `n` servings fewer, down to none.
pub open spec fn with_fewer_servings(r: RecipeView, n: int) -> RecipeView {
    RecipeView {
        configured_nbr_persons: if r.configured_nbr_persons - n < 0 {
            0
        } else {
            r.configured_nbr_persons - n
        },
        ..r
    }
}

/// A recipe that may be missing, scaled to the servings asked for.
pub open spec fn scaled_option(r: Option<RecipeView>) -> Option<RecipeView> {
    match r {
        Some(recipe) => Some(scaled_recipe(recipe)),
        None => None,
    }
}

/// Whether a recipe is chosen for either meal of `day`.
pub open spec fn has_meal(day: WeekDayView, selected: Seq<Option<RecipeView>>) -> bool {
    selected[day.noon_recipe_slot.ordinal()] is Some
        || selected[day.evening_recipe_slot.ordinal()] is Some
}

/// The day `day` with the recipes chosen for its two meals, each scaled to
/// the servings asked for.
pub open spec fn planned_day(day: WeekDayView, selected: Seq<Option<RecipeView>>) -> WeekDayView {
    WeekDayView {
        noon_recipe: scaled_option(selected[day.noon_recipe_slot.ordinal()]),
        evening_recipe: scaled_option(selected[day.evening_recipe_slot.ordinal()]),
        ..day
    }
}

/// Those of `days` that have a meal, in order, with their recipes.
pub open spec fn planned_days(days: Seq<WeekDayView>, selected: Seq<Option<RecipeView>>) -> Seq<
    WeekDayView,
>
    decreases days.len(),
{
    if days.len() == 0 {
        Seq::<WeekDayView>::empty()
    } else {
        let before = planned_days(days.drop_last(), selected);
        if has_meal(days.last(), selected) {
            before.push(planned_day(days.last(), selected))
        } else {
            before
        }
    }
}

/// The recipes that are chosen, in the order of their slots.
pub open spec fn chosen(selected: Seq<Option<RecipeView>>) -> Seq<RecipeView>
    decreases selected.len(),
{
    if selected.len() == 0 {
        Seq::<RecipeView>::empty()
    } else {
        let before = chosen(selected.drop_last());
        match selected.last() {
            Some(r) => before.push(r),
            None => before,
        }
    }
}

/// The menu of the week: those of `days` that have a meal, with their
/// scaled recipes, and the shopping list for all the recipes chosen.
pub open spec fn planned_menu(days: Seq<WeekDayView>, selected: Seq<Option<RecipeView>>) -> MenuView {
    MenuView {
        all_ingredients: gathered(chosen(selected)),
        week_days: planned_days(days, selected),
    }
}

/// The choice `selected` after the days `days` are taken over, in order:
/// the two slots of each day get the recipes of the day, and lose theirs
/// where the day has none.
pub open spec fn with_days(selected: Seq<Option<RecipeView>>, days: Seq<WeekDayView>) -> Seq<
    Option<RecipeView>,
>
    decreases days.len(),
{
    if days.len() == 0 {
        selected
    } else {
        let day = days.last();
        with_days(selected, days.drop_last()).update(
            day.noon_recipe_slot.ordinal(),
            day.noon_recipe,
        ).update(day.evening_recipe_slot.ordinal(), day.evening_recipe)
    }
}

/// A recipe that is chosen is among the chosen recipes.
pub proof fn lemma_chosen_holds(selected: Seq<Option<RecipeView>>, i: int)
    requires
        0 <= i < selected.len(),
        selected[i] is Some,
    ensures
        chosen(selected).contains(selected[i]->0),
    decreases selected.len(),
{
    let before = chosen(selected.drop_last());
    if i == selected.len() - 1 {
        assert(before.push(selected[i]->0).last() == selected[i]->0);
    } else {
        lemma_chosen_holds(selected.drop_last(), i);
        let at = choose|k: int| 0 <= k < before.len() && before[k] == selected[i]->0;
        assert(chosen(selected)[at] == selected[i]->0);
    }
}

/// The state after the message `m`, where the message can be followed.
pub open spec fn after_message(c: ControllerView, m: Message) -> ControllerView {
    match m {
        Message::SelectedRecipeSlot(slot) => ControllerView {
            slot_currently_in_edition: Some(slot),
            current_view: View::RecipeSelection,
            ..c
        },
        Message::ReturnButtonPressed => ControllerView { current_view: View::Main, ..c },
        Message::FilteringVeggieRecipes(on) => match c.slot_currently_in_edition {
            Some(slot) => ControllerView {
                slots_filtering_veggie_recipes: if on {
                    c.slots_filtering_veggie_recipes.push(slot)
                } else {
                    without_first(c.slots_filtering_veggie_recipes, slot)
                },
                ..c
            },
            None => c,
        },
        Message::FilteredSlotRecipe(text) => match c.slot_currently_in_edition {
            Some(slot) => ControllerView {
                filters_on_recipes_slots: c.filters_on_recipes_slots.update(
                    slot.ordinal(),
                    Some(text@),
                ),
                ..c
            },
            None => c,
        },
        Message::SelectedRecipe(slot, name) => ControllerView {
            selected_recipes: c.selected_recipes.update(
                slot.ordinal(),
                match name {
                    Some(n) => Some(c.catalog[position_of(c.catalog, n@)]),
                    None => None,
                },
            ),
            current_view: View::Main,
            ..c
        },
        Message::IncrementedNbrPersonsOfRecipe(slot, n) => match c.selected_recipes[slot.ordinal()] {
            Some(r) => ControllerView {
                selected_recipes: c.selected_recipes.update(
                    slot.ordinal(),
                    Some(with_more_servings(r, n as int)),
                ),
                ..c
            },
            None => c,
        },
        Message::DecrementedNbrPersonsOfRecipe(slot, n) => match c.selected_recipes[slot.ordinal()] {
            Some(r) => ControllerView {
                selected_recipes: c.selected_recipes.update(
                    slot.ordinal(),
                    Some(with_fewer_servings(r, n as int)),
                ),
                ..c
            },
            None => c,
        },
        Message::GenerateRecipeDocument => c,
    }
}

/// Why the message `m` cannot be followed in the state `c`, if it cannot:
/// the recipe to choose is not in the catalog, or a chosen recipe is
/// written for zero servings and the menu cannot be made.
pub open spec fn refusal(c: ControllerView, m: Message) -> Option<RecipeError> {
    match m {
        Message::SelectedRecipe(_, Some(n)) => if position_of(c.catalog, n@) < c.catalog.len() {
            None
        } else {
            Some(RecipeError::RecipeNotFound)
        },
        Message::GenerateRecipeDocument => if all_scalable(chosen(c.selected_recipes)) {
            None
        } else {
            Some(RecipeError::DivisionByZeroServings)
        },
        _ => None,
    }
}

/// The state of the planner.
pub struct MainController {
    pub recipe_service: RecipeService,
    /// The recipe chosen for each slot, by the slot's place in the week.
    pub selected_recipes: [Option<Recipe>; 14],
    pub slot_currently_in_edition: Option<RecipeSlot>,
    /// The filter typed for each slot, by the slot's place in the week.
    pub filters_on_recipes_slots: [Option<String>; 14],
    pub current_view: View,
    pub week_days: Vec<WeekDay>,
    pub slots_filtering_veggie_recipes: Vec<RecipeSlot>,
}

impl vstd::view::View for MainController {
    type V = ControllerView;

    open spec fn view(&self) -> ControllerView {
        ControllerView {
            catalog: self.recipe_service.recipe_repository@,
            selected_recipes: self.selected_recipes@.map_values(
                |r: Option<Recipe>| recipe_option_view(r),
            ),
            slot_currently_in_edition: self.slot_currently_in_edition,
            filters_on_recipes_slots: self.filters_on_recipes_slots@.map_values(
                |t: Option<String>| text_option_view(t),
            ),
            current_view: self.current_view,
            week_days: week_day_views(self.week_days@),
            slots_filtering_veggie_recipes: self.slots_filtering_veggie_recipes@,
        }
    }
}

/// The state at the start, with the catalog `catalog`: nothing chosen, no
/// filter, the main screen.
pub open spec fn initial_state(catalog: Seq<RecipeView>) -> ControllerView {
    ControllerView {
        catalog,
        selected_recipes: Seq::new(SLOT_COUNT as nat, |i: int| None::<RecipeView>),
        slot_currently_in_edition: None,
        filters_on_recipes_slots: Seq::new(SLOT_COUNT as nat, |i: int| None::<Seq<char>>),
        current_view: View::Main,
        week_days: week(),
        slots_filtering_veggie_recipes: Seq::<RecipeSlot>::empty(),
    }
}

impl MainController {
    /// A planner on the catalog of `recipe_service`, with nothing chosen.
    pub fn new(recipe_service: RecipeService) -> (r: MainController)
        ensures
            r@ == initial_state(recipe_service.recipe_repository@),
    {
        let selected_recipes: [Option<Recipe>; 14] = [
            None,
            None,
            None,
            None,
            None,
            None,
            None,
            None,
            None,
            None,
            None,
            None,
            None,
            None,
        ];
        let filters_on_recipes_slots: [Option<String>; 14] = [
            None,
            None,
            None,
            None,
            None,
            None,
            None,
            None,
            None,
            None,
            None,
            None,
            None,
            None,
        ];
        let mut week_days: Vec<WeekDay> = Vec::new();
        week_days.push(
            WeekDay::new(MONDAY.to_owned(), RecipeSlot::MondayNoon, RecipeSlot::MondayEvening),
        );
        week_days.push(
            WeekDay::new(TUESDAY.to_owned(), RecipeSlot::TuesdayNoon, RecipeSlot::TuesdayEvening),
        );
        week_days.push(
            WeekDay::new(
                WEDNESDAY.to_owned(),
                RecipeSlot::WednesdayNoon,
                RecipeSlot::WednesdayEvening,
            ),
        );
        week_days.push(
            WeekDay::new(THURSDAY.to_owned(), RecipeSlot::ThursdayNoon, RecipeSlot::ThursdayEvening),
        );
        week_days.push(
            WeekDay::new(FRIDAY.to_owned(), RecipeSlot::FridayNoon, RecipeSlot::FridayEvening),
        );
        week_days.push(
            WeekDay::new(SATURDAY.to_owned(), RecipeSlot::SaturdayNoon, RecipeSlot::SaturdayEvening),
        );
        week_days.push(
            WeekDay::new(SUNDAY.to_owned(), RecipeSlot::SundayNoon, RecipeSlot::SundayEvening),
        );
        assert(week_day_views(week_days@) =~= week());
        let r = MainController {
            recipe_service,
            selected_recipes,
            slot_currently_in_edition: None,
            filters_on_recipes_slots,
            current_view: View::Main,
            week_days,
            slots_filtering_veggie_recipes: Vec::new(),
        };
        assert(r@.selected_recipes =~= initial_state(
            recipe_service.recipe_repository@,
        ).selected_recipes);
        assert(r@.filters_on_recipes_slots =~= initial_state(
            recipe_service.recipe_repository@,
        ).filters_on_recipes_slots);
        r
    }

    /// The filter typed for `slot`; empty where none was typed.
    pub fn filter_on_slot(&self, slot: RecipeSlot) -> (r: String)
        ensures
            r@ == match self@.filters_on_recipes_slots[slot.ordinal()] {
                Some(t) => t,
                None => Seq::<char>::empty(),
            },
    {
        match &self.filters_on_recipes_slots[slot.index()] {
            Some(t) => t.clone(),
            None => String::new(),
        }
    }

    /// Whether only vegetarian recipes are listed for `slot`.
    pub fn is_filtering_veggie_recipes(&self, slot: RecipeSlot) -> (r: bool)
        ensures
            r == self@.slots_filtering_veggie_recipes.contains(slot),
    {
        let at: usize = self.position_among_veggie_slots(slot);
        proof {
            lemma_slot_position(self.slots_filtering_veggie_recipes@, slot);
        }
        at < self.slots_filtering_veggie_recipes.len()
    }

    /// The place of `slot` among the slots that list only vegetarian
    /// recipes; their number where it is not among them.
    fn position_among_veggie_slots(&self, slot: RecipeSlot) -> (at: usize)
        ensures
            at == slot_position(self.slots_filtering_veggie_recipes@, slot),
            at <= self.slots_filtering_veggie_recipes@.len(),
    {
        let mut at: usize = 0;
        while at < self.slots_filtering_veggie_recipes.len()
            && self.slots_filtering_veggie_recipes[at] != slot
            invariant
                at <= self.slots_filtering_veggie_recipes@.len(),
                forall|k: int| 0 <= k < at ==> #[trigger] self.slots_filtering_veggie_recipes@[k] != slot,
            decreases self.slots_filtering_veggie_recipes@.len() - at,
        {
            at = at + 1;
        }
        proof {
            lemma_first_match_found(
                self.slots_filtering_veggie_recipes@,
                is_slot(slot),
                at as int,
            );
        }
        at
    }

    /// The names of the recipes to choose from for the slot that is being
    /// edited, under that slot's filter; none where no slot is being edited.
    pub fn offered_recipes(&self) -> (names: Vec<String>)
        ensures
            crate::model::recipe::text_views(names@) == match self@.slot_currently_in_edition {
                Some(slot) => listed(
                    self@.catalog,
                    match self@.filters_on_recipes_slots[slot.ordinal()] {
                        Some(t) => t,
                        None => Seq::<char>::empty(),
                    },
                    self@.slots_filtering_veggie_recipes.contains(slot),
                ),
                None => Seq::<Seq<char>>::empty(),
            },
    {
        match self.slot_currently_in_edition {
            Some(slot) => {
                let only_veggies: bool = self.is_filtering_veggie_recipes(slot);
                let filter: String = self.filter_on_slot(slot);
                self.recipe_service.list_recipes(filter, only_veggies)
            },
            None => {
                let names: Vec<String> = Vec::new();
                assert(crate::model::recipe::text_views(names@) =~= Seq::<Seq<char>>::empty());
                names
            },
        }
    }

    /// The menu of the week: each day that has a meal, with the recipes
    /// chosen for it scaled to the servings asked for, and the shopping
    /// list for all the recipes chosen, in the order of their slots. Fails
    /// where a chosen recipe is written for zero servings.
    pub fn generate_menu(&self) -> (r: Result<Menu, RecipeError>)
        ensures
            match r {
                Ok(menu) => all_scalable(chosen(self@.selected_recipes)) && menu@ == planned_menu(
                    self@.week_days,
                    self@.selected_recipes,
                ),
                Err(e) => !all_scalable(chosen(self@.selected_recipes)) && e
                    == RecipeError::DivisionByZeroServings,
            },
    {
        let ghost selected = self@.selected_recipes;
        let mut all_recipes: Vec<Recipe> = Vec::new();
        let mut i: usize = 0;
        assert(selected.take(0) =~= Seq::<Option<RecipeView>>::empty());
        assert(recipe_views(all_recipes@) =~= chosen(selected.take(0)));
        while i < self.selected_recipes.len()
            invariant
                i <= self.selected_recipes@.len(),
                selected == self@.selected_recipes,
                selected.len() == self.selected_recipes@.len(),
                recipe_views(all_recipes@) == chosen(selected.take(i as int)),
            decreases self.selected_recipes@.len() - i,
        {
            assert(selected.take(i + 1).drop_last() =~= selected.take(i as int));
            assert(selected.take(i + 1).last() == recipe_option_view(
                self.selected_recipes@[i as int],
            ));
            let ghost before = all_recipes@;
            match &self.selected_recipes[i] {
                Some(recipe) => {
                    all_recipes.push(recipe.clone());
                    assert(recipe_views(all_recipes@) =~= recipe_views(before).push(recipe@));
                },
                None => {},
            }
            i = i + 1;
        }
        assert(selected.take(i as int) =~= selected);
        let all_ingredients: Vec<Ingredient> =
            match self.recipe_service.gather_all_ingredients_from_recipes_vector(&all_recipes) {
            Ok(list) => list,
            Err(e) => {
                return Err(e);
            },
        };
        let mut week_days: Vec<WeekDay> = Vec::new();
        let mut k: usize = 0;
        let ghost days = self@.week_days;
        assert(days.take(0) =~= Seq::<WeekDayView>::empty());
        assert(week_day_views(week_days@) =~= planned_days(days.take(0), selected));
        while k < self.week_days.len()
            invariant
                k <= self.week_days@.len(),
                week_day_views(self.week_days@) == days,
                selected == self@.selected_recipes,
                all_scalable(chosen(selected)),
                week_day_views(week_days@) == planned_days(days.take(k as int), selected),
            decreases self.week_days@.len() - k,
        {
            let day: &WeekDay = &self.week_days[k];
            assert(day@ == days[k as int]);
            assert(days.take(k + 1).drop_last() =~= days.take(k as int));
            assert(days.take(k + 1).last() == days[k as int]);
            let noon: Option<Recipe> = match self.scaled_selection(day.noon_recipe_slot) {
                Ok(r) => r,
                Err(e) => {
                    return Err(e);
                },
            };
            let evening: Option<Recipe> = match self.scaled_selection(day.evening_recipe_slot) {
                Ok(r) => r,
                Err(e) => {
                    return Err(e);
                },
            };
            if noon.is_some() || evening.is_some() {
                let ghost before = week_days@;
                let planned: WeekDay = WeekDay {
                    name: day.name.clone(),
                    noon_recipe_slot: day.noon_recipe_slot,
                    evening_recipe_slot: day.evening_recipe_slot,
                    noon_recipe: noon,
                    evening_recipe: evening,
                };
                assert(planned@ == planned_day(days[k as int], selected));
                week_days.push(planned);
                assert(week_day_views(week_days@) =~= week_day_views(before).push(planned@));
            }
            k = k + 1;
        }
        assert(days.take(k as int) =~= days);
        Ok(Menu { all_ingredients, week_days })
    }

    /// The recipe chosen for `slot`, scaled to the servings asked for.
    fn scaled_selection(&self, slot: RecipeSlot) -> (r: Result<Option<Recipe>, RecipeError>)
        ensures
            match r {
                Ok(recipe) => recipe_option_view(recipe) == scaled_option(
                    self@.selected_recipes[slot.ordinal()],
                ),
                Err(e) => !all_scalable(chosen(self@.selected_recipes)) && e
                    == RecipeError::DivisionByZeroServings,
            },
    {
        match &self.selected_recipes[slot.index()] {
            Some(recipe) => {
                let mut scaled: Recipe = recipe.clone();
                match scaled.sync_with_configured_nbr_persons() {
                    Ok(()) => Ok(Some(scaled)),
                    Err(e) => {
                        proof {
                            lemma_chosen_holds(self@.selected_recipes, slot.ordinal());
                            let list = chosen(self@.selected_recipes);
                            let at = choose|k: int|
                                0 <= k < list.len() && list[k] == recipe@;
                            assert(list[at].nbr_persons == 0);
                        }
                        Err(e)
                    },
                }
            },
            None => Ok(None),
        }
    }

    /// Follows the message `message`: changes the state as the message
    /// says, and returns what is left for the application to do. Where the
    /// message cannot be followed, nothing changes and the reason is
    /// returned.
    pub fn update(&mut self, message: Message) -> (r: Result<Effect, RecipeError>)
        ensures
            match refusal(old(self)@, message) {
                Some(e) => r is Err && r->Err_0 == e && final(self)@ == old(self)@,
                None => {
                    &&& final(self)@ == after_message(old(self)@, message)
                    &&& r is Ok
                    &&& match message {
                        Message::GenerateRecipeDocument => r->Ok_0 is WriteMenu && r->Ok_0->WriteMenu_0@
                            == planned_menu(old(self)@.week_days, old(self)@.selected_recipes),
                        _ => r->Ok_0 is Nothing,
                    }
                },
            },
    {
        match message {
            Message::SelectedRecipeSlot(slot) => {
                self.slot_currently_in_edition = Some(slot);
                self.current_view = View::RecipeSelection;
                Ok(Effect::Nothing)
            },
            Message::ReturnButtonPressed => {
                self.current_view = View::Main;
                Ok(Effect::Nothing)
            },
            Message::FilteringVeggieRecipes(is_filtering) => {
                match self.slot_currently_in_edition {
                    Some(slot) => {
                        if is_filtering {
                            self.slots_filtering_veggie_recipes.push(slot);
                        } else {
                            let at: usize = self.position_among_veggie_slots(slot);
                            if at < self.slots_filtering_veggie_recipes.len() {
                                self.slots_filtering_veggie_recipes.swap_remove(at);
                            }
                        }
                    },
                    None => {},
                }
                Ok(Effect::Nothing)
            },
            Message::FilteredSlotRecipe(text) => {
                match self.slot_currently_in_edition {
                    Some(slot) => {
                        self.filters_on_recipes_slots[slot.index()] = Some(text);
                        assert(self@.filters_on_recipes_slots =~= old(
                            self,
                        )@.filters_on_recipes_slots.update(slot.ordinal(), Some(text@)));
                    },
                    None => {},
                }
                Ok(Effect::Nothing)
            },
            Message::SelectedRecipe(recipe_slot, recipe) => {
                match recipe {
                    Some(selected_recipe_name) => {
                        let selected_recipe: Recipe = match self.recipe_service.find_recipe_by_name(
                            &selected_recipe_name,
                        ) {
                            Ok(r) => r,
                            Err(e) => {
                                return Err(e);
                            },
                        };
                        let ghost chosen_view = selected_recipe@;
                        self.selected_recipes[recipe_slot.index()] = Some(selected_recipe);
                        assert(self@.selected_recipes =~= old(self)@.selected_recipes.update(
                            recipe_slot.ordinal(),
                            Some(chosen_view),
                        ));
                    },
                    None => {
                        self.selected_recipes[recipe_slot.index()] = None;
                        assert(self@.selected_recipes =~= old(self)@.selected_recipes.update(
                            recipe_slot.ordinal(),
                            None,
                        ));
                    },
                }
                self.current_view = View::Main;
                Ok(Effect::Nothing)
            },
            Message::IncrementedNbrPersonsOfRecipe(recipe_slot, nbr_persons) => {
                self.change_servings(recipe_slot, nbr_persons, true);
                Ok(Effect::Nothing)
            },
            Message::DecrementedNbrPersonsOfRecipe(recipe_slot, nbr_persons) => {
                self.change_servings(recipe_slot, nbr_persons, false);
                Ok(Effect::Nothing)
            },
            Message::GenerateRecipeDocument => {
                match self.generate_menu() {
                    Ok(menu) => Ok(Effect::WriteMenu(menu)),
                    Err(e) => Err(e),
                }
            },
        }
    }

    /// Takes over the recipes of `week_days`, as they were read from a
    /// menu: the two slots of each day get the recipes of the day, and lose
    /// theirs where the day has none. The other slots keep what they have.
    pub fn assign_week_days(&mut self, week_days: &Vec<WeekDay>)
        ensures
            final(self)@ == (ControllerView {
                selected_recipes: with_days(
                    old(self)@.selected_recipes,
                    week_day_views(week_days@),
                ),
                ..old(self)@
            }),
    {
        let ghost days = week_day_views(week_days@);
        let ghost start = self@.selected_recipes;
        let mut i: usize = 0;
        assert(days.take(0) =~= Seq::<WeekDayView>::empty());
        while i < week_days.len()
            invariant
                i <= week_days@.len(),
                days == week_day_views(week_days@),
                self@.selected_recipes == with_days(start, days.take(i as int)),
                self@ == (ControllerView { selected_recipes: self@.selected_recipes, ..old(self)@ }),
            decreases week_days@.len() - i,
        {
            let day: &WeekDay = &week_days[i];
            assert(days.take(i + 1).drop_last() =~= days.take(i as int));
            assert(days.take(i + 1).last() == day@);
            let ghost before = self@.selected_recipes;
            self.selected_recipes[day.noon_recipe_slot.index()] = clone_recipe_option(
                &day.noon_recipe,
            );
            self.selected_recipes[day.evening_recipe_slot.index()] = clone_recipe_option(
                &day.evening_recipe,
            );
            assert(self@.selected_recipes =~= before.update(
                day@.noon_recipe_slot.ordinal(),
                day@.noon_recipe,
            ).update(day@.evening_recipe_slot.ordinal(), day@.evening_recipe));
            i = i + 1;
        }
        assert(days.take(i as int) =~= days);
    }

    /// Asks for `nbr_persons` servings more, or fewer, of the recipe chosen
    /// for `slot`, within 0 and 255. Without a recipe there, nothing changes.
    fn change_servings(&mut self, slot: RecipeSlot, nbr_persons: u8, more: bool)
        ensures
            final(self)@ == match old(self)@.selected_recipes[slot.ordinal()] {
                Some(r) => ControllerView {
                    selected_recipes: old(self)@.selected_recipes.update(
                        slot.ordinal(),
                        Some(
                            if more {
                                with_more_servings(r, nbr_persons as int)
                            } else {
                                with_fewer_servings(r, nbr_persons as int)
                            },
                        ),
                    ),
                    ..old(self)@
                },
                None => old(self)@,
            },
    {
        let at: usize = slot.index();
        let changed: Option<Recipe> = match &self.selected_recipes[at] {
            Some(recipe) => {
                let mut recipe: Recipe = recipe.clone();
                recipe.configured_nbr_persons = if more {
                    if recipe.configured_nbr_persons > 255 - nbr_persons {
                        255
                    } else {
                        recipe.configured_nbr_persons + nbr_persons
                    }
                } else {
                    if recipe.configured_nbr_persons < nbr_persons {
                        0
                    } else {
                        recipe.configured_nbr_persons - nbr_persons
                    }
                };
                Some(recipe)
            },
            None => None,
        };
        match changed {
            Some(recipe) => {
                let ghost view = recipe@;
                self.selected_recipes[at] = Some(recipe);
                assert(self@.selected_recipes =~= old(self)@.selected_recipes.update(
                    at as int,
                    Some(view),
                ));
            },
            None => {},
        }
    }
}

} // verus!
