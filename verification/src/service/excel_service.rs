//! The spreadsheet of a menu: which cell holds what.
//!
//! The library lays the sheets out and reads them back; writing a workbook
//! to a file and reading one from a file is left to the application, which
//! hands these cells to its spreadsheet writer as they are.

use crate::model::ingredient::{ingredient_views, Ingredient, IngredientView, WHOLE_INGREDIENT};
use crate::model::menu::{Menu, MenuView};
use crate::model::quantity::Quantity;
use crate::model::recipe::{text_views, Recipe, RecipeView, EVENING, NOON};
use crate::model::weekday::{recipe_option_view, week_day_views, WeekDay, WeekDayView};
use crate::repository::recipe_repository::position_of;
use crate::search::{first_match, lemma_first_match_found};
use crate::service::recipe_service::RecipeService;
use calamine::DataType;
use vstd::arithmetic::div_mod::lemma_fundamental_div_mod;
use vstd::prelude::*;
use vstd::string::StringExecFns;

verus! {

/// The number of rows a sheet can hold.
pub const MAX_SHEET_ROWS: u32 = 1_048_576;

/// The name of the sheet that holds the shopping list.
pub const SHOPPING_LIST_SHEET: &'static str = "Liste de courses";

/// The heading of the ingredient names.
pub const INGREDIENT_HEADING: &'static str = "Ingr\u{e9}dient";

/// The heading of the quantities.
pub const QUANTITY_HEADING: &'static str = "Quantit\u{e9}";

/// The heading of the summary of the week.
pub const SUMMARY_HEADING: &'static str = "R\u{e9}sum\u{e9} de la semaine";

/// The word after the number of servings of a recipe.
pub const SERVINGS_WORD: &'static str = "Personnes";

/// One of the two meals of a day.
#[derive(Clone, Copy, Debug, PartialEq, Eq, Structural)]
pub enum DailyRecipeSlot {
    Noon,
    Evening,
}

/// How a cell is shown.
#[derive(Clone, Copy, Debug, PartialEq, Eq, Structural)]
pub enum CellStyle {
    Plain,
    /// The heading of a column: bold, large, on a coloured ground.
    ColumnHeader,
    Bold,
}

/// What a cell holds.
#[derive(Debug)]
pub enum CellContent {
    Text(String),
    /// A number of servings.
    Count(u8),
    /// A quantity of an ingredient.
    Amount(Quantity),
}

/// What a cell holds, as mathematical values.
pub enum CellContentView {
    Text(Seq<char>),
    Count(int),
    /// A quantity, in millionths.
    Amount(int),
}

impl View for CellContent {
    type V = CellContentView;

    open spec fn view(&self) -> CellContentView {
        match self {
            CellContent::Text(t) => CellContentView::Text(t@),
            CellContent::Count(n) => CellContentView::Count(*n as int),
            CellContent::Amount(q) => CellContentView::Amount(q.micros as int),
        }
    }
}

/// One cell of a sheet to write. Rows and columns count from 0.
#[derive(Debug)]
pub struct SheetCell {
    pub row: u32,
    pub column: u16,
    pub content: CellContent,
    pub style: CellStyle,
}

/// One cell of a sheet to write, as mathematical values.
pub struct SheetCellView {
    pub row: int,
    pub column: int,
    pub content: CellContentView,
    pub style: CellStyle,
}

impl View for SheetCell {
    type V = SheetCellView;

    open spec fn view(&self) -> SheetCellView {
        SheetCellView {
            row: self.row as int,
            column: self.column as int,
            content: self.content@,
            style: self.style,
        }
    }
}

/// The views of the cells in `s`.
pub open spec fn cell_views(s: Seq<SheetCell>) -> Seq<SheetCellView> {
    s.map_values(|c: SheetCell| c@)
}

/// A sheet to write: its name and its cells, in the order they are written.
#[derive(Debug)]
pub struct Sheet {
    pub name: String,
    pub cells: Vec<SheetCell>,
}

/// A sheet to write, as mathematical values.
pub struct SheetView {
    pub name: Seq<char>,
    pub cells: Seq<SheetCellView>,
}

impl View for Sheet {
    type V = SheetView;

    open spec fn view(&self) -> SheetView {
        SheetView { name: self.name@, cells: cell_views(self.cells@) }
    }
}

/// The views of the sheets in `s`.
pub open spec fn sheet_views(s: Seq<Sheet>) -> Seq<SheetView> {
    s.map_values(|x: Sheet| x@)
}

/// The cell at `row` and `column` that holds the text `text`.
pub open spec fn text_cell(row: int, column: int, text: Seq<char>, style: CellStyle) -> SheetCellView {
    SheetCellView { row, column, content: CellContentView::Text(text), style }
}

/// The character of the digit `d`.
pub open spec fn digit_char(d: int) -> char
    recommends
        0 <= d <= 9,
{
    ((0x30 + d) as u8) as char
}

/// The number `n` in decimal digits.
pub open spec fn decimal_text(n: int) -> Seq<char>
    recommends
        n >= 0,
    decreases n,
{
    if n < 10 {
        seq![digit_char(n)]
    } else {
        decimal_text(n / 10).push(digit_char(n % 10))
    }
}

/// The label of the meal `slot`.
pub open spec fn slot_label(slot: DailyRecipeSlot) -> Seq<char> {
    match slot {
        DailyRecipeSlot::Noon => NOON@,
        DailyRecipeSlot::Evening => EVENING@,
    }
}

/// The recipe of the meal `slot` of `day`.
pub open spec fn meal_of(day: WeekDayView, slot: DailyRecipeSlot) -> Option<RecipeView> {
    match slot {
        DailyRecipeSlot::Noon => day.noon_recipe,
        DailyRecipeSlot::Evening => day.evening_recipe,
    }
}

/// The cells of one ingredient in the row `row`: its name, its quantity
/// beside it, and its unit after that if it is measured.
pub open spec fn ingredient_cells(i: IngredientView, row: int, column: int) -> Seq<SheetCellView> {
    let counted = seq![
        text_cell(row, column, i.name, CellStyle::Plain),
        SheetCellView {
            row,
            column: column + 1,
            content: CellContentView::Amount(i.micros),
            style: CellStyle::Plain,
        },
    ];
    if i.unit != WHOLE_INGREDIENT@ {
        counted.push(text_cell(row, column + 2, i.unit, CellStyle::Plain))
    } else {
        counted
    }
}

/// The cells of the ingredients `list`, one row each from `first_row` down.
pub open spec fn ingredient_rows(list: Seq<IngredientView>, first_row: int, column: int) -> Seq<
    SheetCellView,
>
    decreases list.len(),
{
    if list.len() == 0 {
        Seq::<SheetCellView>::empty()
    } else {
        ingredient_rows(list.drop_last(), first_row, column) + ingredient_cells(
            list.last(),
            first_row + list.len() - 1,
            column,
        )
    }
}

/// The cells of the steps `steps`, one row each from `first_row` down.
pub open spec fn step_rows(steps: Seq<Seq<char>>, first_row: int, column: int) -> Seq<
    SheetCellView,
> {
    Seq::new(steps.len(), |k: int| text_cell(first_row + k, column, steps[k], CellStyle::Plain))
}

/// The cells of a recipe from `row` down: the label of the meal, then the
/// name with the servings beside it, then the ingredients, then, two rows
/// further, the steps.
pub open spec fn recipe_cells(label: Seq<char>, r: RecipeView, row: int, column: int) -> Seq<
    SheetCellView,
> {
    seq![
        text_cell(row, column, label, CellStyle::ColumnHeader),
        text_cell(row + 1, column, r.name, CellStyle::Bold),
        SheetCellView {
            row: row + 1,
            column: column + 1,
            content: CellContentView::Count(r.configured_nbr_persons),
            style: CellStyle::Plain,
        },
        text_cell(row + 1, column + 2, SERVINGS_WORD@, CellStyle::Plain),
    ] + ingredient_rows(r.ingredients, row + 2, column) + step_rows(
        r.steps,
        row + 4 + r.ingredients.len(),
        column,
    )
}

/// The cells of a meal from `row` down; none without a recipe.
pub open spec fn meal_cells(label: Seq<char>, r: Option<RecipeView>, row: int, column: int) -> Seq<
    SheetCellView,
> {
    match r {
        Some(recipe) => recipe_cells(label, recipe, row, column),
        None => Seq::<SheetCellView>::empty(),
    }
}

/// The row after the last row of a meal that begins at `row`; `row` itself
/// without a recipe.
pub open spec fn meal_end(r: Option<RecipeView>, row: int) -> int {
    match r {
        Some(recipe) => row + 4 + recipe.ingredients.len() + recipe.steps.len(),
        None => row,
    }
}

/// The cells of the sheet of a day: the noon meal from row 1, the evening
/// meal three rows after its end, both from column 1.
pub open spec fn day_cells(day: WeekDayView) -> Seq<SheetCellView> {
    meal_cells(NOON@, day.noon_recipe, 1, 1) + meal_cells(
        EVENING@,
        day.evening_recipe,
        meal_end(day.noon_recipe, 1) + 3,
        1,
    )
}

/// Whether the sheet of a day has room for both meals.
pub open spec fn day_fits(day: WeekDayView) -> bool {
    meal_end(day.evening_recipe, meal_end(day.noon_recipe, 1) + 3) <= MAX_SHEET_ROWS
}

/// The sheet of a day.
pub open spec fn day_sheet(day: WeekDayView) -> SheetView {
    SheetView { name: day.name, cells: day_cells(day) }
}

/// The line of the summary for a recipe: its name and, in brackets, the
/// servings asked for.
pub open spec fn meal_summary(r: RecipeView) -> Seq<char> {
    r.name + " ("@ + decimal_text(r.configured_nbr_persons) + " personnes)"@
}

/// The cells of the summary line of a meal in the row `row`; none without a
/// recipe.
pub open spec fn meal_summary_cells(label: Seq<char>, r: Option<RecipeView>, row: int, column: int) -> Seq<
    SheetCellView,
> {
    match r {
        Some(recipe) => seq![
            text_cell(row, column, label + " :"@, CellStyle::Plain),
            text_cell(row, column + 1, meal_summary(recipe), CellStyle::Plain),
        ],
        None => Seq::<SheetCellView>::empty(),
    }
}

/// The number of rows that the summary line of a meal takes.
pub open spec fn meal_summary_height(r: Option<RecipeView>) -> int {
    if r is Some {
        1
    } else {
        0
    }
}

/// The cells of the summary of a day from `row` down: the name of the day,
/// then a line for each meal that has a recipe.
pub open spec fn day_summary_cells(day: WeekDayView, row: int, column: int) -> Seq<SheetCellView> {
    seq![text_cell(row, column, day.name, CellStyle::Plain)] + meal_summary_cells(
        NOON@,
        day.noon_recipe,
        row + 1,
        column,
    ) + meal_summary_cells(
        EVENING@,
        day.evening_recipe,
        row + 1 + meal_summary_height(day.noon_recipe),
        column,
    )
}

/// The number of rows that the summary of a day takes, the empty row after
/// it included.
pub open spec fn day_summary_height(day: WeekDayView) -> int {
    2 + meal_summary_height(day.noon_recipe) + meal_summary_height(day.evening_recipe)
}

/// The number of rows that the summaries of `days` take.
pub open spec fn summary_height(days: Seq<WeekDayView>) -> int
    decreases days.len(),
{
    if days.len() == 0 {
        0
    } else {
        summary_height(days.drop_last()) + day_summary_height(days.last())
    }
}

/// The cells of the summaries of `days`, one under the other from
/// `first_row` down.
pub open spec fn summary_cells(days: Seq<WeekDayView>, first_row: int, column: int) -> Seq<
    SheetCellView,
>
    decreases days.len(),
{
    if days.len() == 0 {
        Seq::<SheetCellView>::empty()
    } else {
        summary_cells(days.drop_last(), first_row, column) + day_summary_cells(
            days.last(),
            first_row + summary_height(days.drop_last()),
            column,
        )
    }
}

/// The cells of the shopping-list sheet: the headings in row 1, the
/// ingredients from row 2 and column 1, the summary of the week from row 2
/// and column 5.
pub open spec fn shopping_list_cells(menu: MenuView) -> Seq<SheetCellView> {
    seq![
        text_cell(1, 1, INGREDIENT_HEADING@, CellStyle::ColumnHeader),
        text_cell(1, 2, QUANTITY_HEADING@, CellStyle::ColumnHeader),
        text_cell(1, 5, SUMMARY_HEADING@, CellStyle::ColumnHeader),
    ] + ingredient_rows(menu.all_ingredients, 2, 1) + summary_cells(menu.week_days, 2, 5)
}

/// Whether the shopping-list sheet has room for the list and the summary.
pub open spec fn shopping_list_fits(menu: MenuView) -> bool {
    &&& 2 + menu.all_ingredients.len() <= MAX_SHEET_ROWS
    &&& 2 + summary_height(menu.week_days) <= MAX_SHEET_ROWS
}

/// The shopping-list sheet.
pub open spec fn shopping_list_sheet(menu: MenuView) -> SheetView {
    SheetView { name: SHOPPING_LIST_SHEET@, cells: shopping_list_cells(menu) }
}

/// Whether `day` has a recipe for either meal.
pub open spec fn is_planned(day: WeekDayView) -> bool {
    day.noon_recipe is Some || day.evening_recipe is Some
}

/// The sheets of the days among `days` that have a recipe, in order.
pub open spec fn day_sheets(days: Seq<WeekDayView>) -> Seq<SheetView>
    decreases days.len(),
{
    if days.len() == 0 {
        Seq::<SheetView>::empty()
    } else if is_planned(days.last()) {
        day_sheets(days.drop_last()).push(day_sheet(days.last()))
    } else {
        day_sheets(days.drop_last())
    }
}

/// Whether the sheet of every day among `days` that has a recipe has room
/// for it.
pub open spec fn days_fit(days: Seq<WeekDayView>) -> bool {
    forall|k: int| 0 <= k < days.len() && is_planned(#[trigger] days[k]) ==> day_fits(days[k])
}

/// The sheets of the workbook of a menu: the shopping list first, then one
/// sheet for each day that has a recipe.
pub open spec fn menu_sheets(menu: MenuView) -> Seq<SheetView> {
    seq![shopping_list_sheet(menu)] + day_sheets(menu.week_days)
}

/// Whether every sheet of the workbook of a menu has room for its cells.
pub open spec fn menu_fits(menu: MenuView) -> bool {
    shopping_list_fits(menu) && days_fit(menu.week_days)
}

/// The summaries of some of the days take no more rows than those of all.
pub proof fn lemma_summary_height_grows(days: Seq<WeekDayView>, n: int)
    requires
        0 <= n <= days.len(),
    ensures
        0 <= summary_height(days.take(n)) <= summary_height(days),
    decreases days.len() - n,
{
    if n < days.len() {
        assert(days.take(n + 1).drop_last() =~= days.take(n));
        lemma_summary_height_grows(days, n + 1);
        lemma_summary_height_nonnegative(days.take(n));
    } else {
        assert(days.take(n) =~= days);
        lemma_summary_height_nonnegative(days);
    }
}

/// A summary takes no negative number of rows.
pub proof fn lemma_summary_height_nonnegative(days: Seq<WeekDayView>)
    ensures
        summary_height(days) >= 0,
    decreases days.len(),
{
    if days.len() > 0 {
        lemma_summary_height_nonnegative(days.drop_last());
    }
}

/// The number `n` in decimal digits.
pub fn count_text(n: u8) -> (r: String)
    ensures
        r@ == decimal_text(n as int),
{
    let mut r: String = String::new();
    if n >= 100 {
        r.push((0x30 + n / 100) as char);
    }
    if n >= 10 {
        r.push((0x30 + (n / 10) % 10) as char);
    }
    r.push((0x30 + n % 10) as char);
    proof {
        reveal_with_fuel(decimal_text, 3);
        assert(r@ =~= decimal_text(n as int));
    }
    r
}

/// A cell that holds a copy of the text `text`.
fn new_text_cell(row: u32, column: u16, text: &str, style: CellStyle) -> (c: SheetCell)
    ensures
        c@ == text_cell(row as int, column as int, text@, style),
{
    SheetCell { row, column, content: CellContent::Text(text.to_owned()), style }
}

/// Adds the cells of the ingredients `list`, one row each from `first_row`
/// down.
fn write_ingredients(cells: &mut Vec<SheetCell>, list: &Vec<Ingredient>, first_row: u32, column: u16)
    requires
        first_row + list@.len() <= MAX_SHEET_ROWS,
        column + 2 <= u16::MAX,
    ensures
        cell_views(final(cells)@) == cell_views(old(cells)@) + ingredient_rows(
            ingredient_views(list@),
            first_row as int,
            column as int,
        ),
{
    let ghost start = cell_views(cells@);
    let ghost all = ingredient_views(list@);
    let mut i: usize = 0;
    assert(all.take(0) =~= Seq::<IngredientView>::empty());
    assert(cell_views(cells@) =~= start + ingredient_rows(
        all.take(0),
        first_row as int,
        column as int,
    ));
    while i < list.len()
        invariant
            i <= list@.len(),
            all == ingredient_views(list@),
            first_row + list@.len() <= MAX_SHEET_ROWS,
            column + 2 <= u16::MAX,
            cell_views(cells@) == start + ingredient_rows(
                all.take(i as int),
                first_row as int,
                column as int,
            ),
        decreases list@.len() - i,
    {
        let ingredient: &Ingredient = &list[i];
        let row: u32 = first_row + i as u32;
        let ghost before = cell_views(cells@);
        let ghost c0 = cells@;
        assert(all.take(i + 1).drop_last() =~= all.take(i as int));
        assert(all.take(i + 1).last() == ingredient@);
        cells.push(new_text_cell(row, column, ingredient.name.as_str(), CellStyle::Plain));
        cells.push(
            SheetCell {
                row,
                column: column + 1,
                content: CellContent::Amount(ingredient.quantity),
                style: CellStyle::Plain,
            },
        );
        let whole: String = WHOLE_INGREDIENT.to_owned();
        if ingredient.unit != whole {
            cells.push(new_text_cell(row, column + 2, ingredient.unit.as_str(), CellStyle::Plain));
        }
        assert(cell_views(cells@) =~= before + ingredient_cells(
            ingredient@,
            row as int,
            column as int,
        ));
        i = i + 1;
    }
    assert(all.take(i as int) =~= all);
}

/// Adds the cells of the meal `daily_recipe_slot` of `week_day` from
/// `starting_row` down, and returns the row after the last; adds nothing
/// and returns `starting_row` where the meal has no recipe.
pub fn write_recipe(
    cells: &mut Vec<SheetCell>,
    week_day: &WeekDay,
    daily_recipe_slot: DailyRecipeSlot,
    starting_row: u32,
    starting_column: u16,
) -> (end: u32)
    requires
        meal_end(meal_of(week_day@, daily_recipe_slot), starting_row as int) <= MAX_SHEET_ROWS,
        starting_row <= MAX_SHEET_ROWS,
        starting_column + 2 <= u16::MAX,
    ensures
        end == meal_end(meal_of(week_day@, daily_recipe_slot), starting_row as int),
        cell_views(final(cells)@) == cell_views(old(cells)@) + meal_cells(
            slot_label(daily_recipe_slot),
            meal_of(week_day@, daily_recipe_slot),
            starting_row as int,
            starting_column as int,
        ),
{
    let ghost start = cell_views(cells@);
    let (label, recipe_to_write): (&str, &Option<Recipe>) = match daily_recipe_slot {
        DailyRecipeSlot::Noon => (NOON, &week_day.noon_recipe),
        DailyRecipeSlot::Evening => (EVENING, &week_day.evening_recipe),
    };
    assert(recipe_option_view(*recipe_to_write) == meal_of(week_day@, daily_recipe_slot));
    match recipe_to_write {
        Some(recipe) => {
            assert(recipe@.ingredients.len() == recipe.ingredients@.len());
            assert(recipe@.steps.len() == recipe.steps@.len());
            cells.push(
                new_text_cell(starting_row, starting_column, label, CellStyle::ColumnHeader),
            );
            cells.push(
                new_text_cell(
                    starting_row + 1,
                    starting_column,
                    recipe.name.as_str(),
                    CellStyle::Bold,
                ),
            );
            cells.push(
                SheetCell {
                    row: starting_row + 1,
                    column: starting_column + 1,
                    content: CellContent::Count(recipe.configured_nbr_persons),
                    style: CellStyle::Plain,
                },
            );
            cells.push(
                new_text_cell(
                    starting_row + 1,
                    starting_column + 2,
                    SERVINGS_WORD,
                    CellStyle::Plain,
                ),
            );
            let ghost head = cell_views(cells@);
            assert(head =~= start + seq![
                text_cell(
                    starting_row as int,
                    starting_column as int,
                    slot_label(daily_recipe_slot),
                    CellStyle::ColumnHeader,
                ),
                text_cell(
                    starting_row + 1,
                    starting_column as int,
                    recipe@.name,
                    CellStyle::Bold,
                ),
                SheetCellView {
                    row: starting_row + 1,
                    column: starting_column + 1,
                    content: CellContentView::Count(recipe@.configured_nbr_persons),
                    style: CellStyle::Plain,
                },
                text_cell(
                    starting_row + 1,
                    starting_column + 2,
                    SERVINGS_WORD@,
                    CellStyle::Plain,
                ),
            ]);
            write_ingredients(cells, &recipe.ingredients, starting_row + 2, starting_column);
            let ghost middle = cell_views(cells@);
            let first_step_row: u32 = starting_row + 4 + recipe.ingredients.len() as u32;
            let ghost steps = text_views(recipe.steps@);
            let mut i: usize = 0;
            assert(cell_views(cells@) =~= middle + step_rows(
                steps,
                first_step_row as int,
                starting_column as int,
            ).take(0));
            while i < recipe.steps.len()
                invariant
                    i <= recipe.steps@.len(),
                    steps == text_views(recipe.steps@),
                    first_step_row + recipe.steps@.len() <= MAX_SHEET_ROWS,
                    cell_views(cells@) == middle + step_rows(
                        steps,
                        first_step_row as int,
                        starting_column as int,
                    ).take(i as int),
                decreases recipe.steps@.len() - i,
            {
                let ghost before = cell_views(cells@);
                assert(steps[i as int] == recipe.steps@[i as int]@);
                cells.push(
                    new_text_cell(
                        first_step_row + i as u32,
                        starting_column,
                        recipe.steps[i].as_str(),
                        CellStyle::Plain,
                    ),
                );
                let ghost rows = step_rows(steps, first_step_row as int, starting_column as int);
                assert(cell_views(cells@) =~= before.push(rows[i as int]));
                assert(rows.take(i + 1) =~= rows.take(i as int).push(rows[i as int]));
                assert(cell_views(cells@) =~= middle + rows.take(i + 1));
                i = i + 1;
            }
            assert(step_rows(steps, first_step_row as int, starting_column as int).take(
                i as int,
            ) =~= step_rows(steps, first_step_row as int, starting_column as int));
            assert(cell_views(cells@) =~= start + recipe_cells(
                slot_label(daily_recipe_slot),
                recipe@,
                starting_row as int,
                starting_column as int,
            ));
            first_step_row + recipe.steps.len() as u32
        },
        None => {
            assert(cell_views(cells@) =~= start + Seq::<SheetCellView>::empty());
            starting_row
        },
    }
}

/// The number of rows of a meal: four and one for each ingredient and each
/// step; none without a recipe; `None` where that is more than `room`.
fn meal_height(r: &Option<Recipe>, room: u32) -> (h: Option<u32>)
    requires
        room <= MAX_SHEET_ROWS,
    ensures
        match h {
            Some(n) => n == meal_end(recipe_option_view(*r), 0) && n <= room,
            None => meal_end(recipe_option_view(*r), 0) > room,
        },
{
    match r {
        Some(recipe) => {
            assert(recipe@.ingredients.len() == recipe.ingredients@.len());
            assert(recipe@.steps.len() == recipe.steps@.len());
            if room < 4 {
                return None;
            }
            let left: usize = (room - 4) as usize;
            if recipe.ingredients.len() > left {
                return None;
            }
            if recipe.steps.len() > left - recipe.ingredients.len() {
                return None;
            }
            Some(4 + recipe.ingredients.len() as u32 + recipe.steps.len() as u32)
        },
        None => Some(0),
    }
}

/// The sheet of `week_day`: its noon meal from row 1, its evening meal
/// three rows after the end of that; `None` where the sheet has no room
/// for them.
pub fn write_day(week_day: &WeekDay) -> (r: Option<Sheet>)
    ensures
        match r {
            Some(sheet) => day_fits(week_day@) && sheet@ == day_sheet(week_day@),
            None => !day_fits(week_day@),
        },
{
    let noon_height: u32 = match meal_height(&week_day.noon_recipe, MAX_SHEET_ROWS - 4) {
        Some(h) => h,
        None => {
            return None;
        },
    };
    let evening_start: u32 = 1 + noon_height + 3;
    match meal_height(&week_day.evening_recipe, MAX_SHEET_ROWS - evening_start) {
        Some(_) => {},
        None => {
            return None;
        },
    }
    let mut cells: Vec<SheetCell> = Vec::new();
    let last_written_row: u32 = write_recipe(&mut cells, week_day, DailyRecipeSlot::Noon, 1, 1);
    let ghost noon_cells = cell_views(cells@);
    assert(noon_cells =~= meal_cells(NOON@, week_day@.noon_recipe, 1, 1));
    write_recipe(&mut cells, week_day, DailyRecipeSlot::Evening, last_written_row + 3, 1);
    Some(Sheet { name: week_day.name.clone(), cells })
}

/// The summary line of the recipe `recipe`.
fn summary_text(recipe: &Recipe) -> (r: String)
    ensures
        r@ == meal_summary(recipe@),
{
    let mut r: String = recipe.name.clone();
    r.append(" (");
    let count: String = count_text(recipe.configured_nbr_persons);
    r.append(count.as_str());
    r.append(" personnes)");
    r
}

/// Adds the summary line of a meal in the row `row`, if it has a recipe.
fn write_meal_summary(
    cells: &mut Vec<SheetCell>,
    label: &str,
    recipe: &Option<Recipe>,
    row: u32,
    column: u16,
)
    requires
        column + 1 <= u16::MAX,
    ensures
        cell_views(final(cells)@) == cell_views(old(cells)@) + meal_summary_cells(
            label@,
            recipe_option_view(*recipe),
            row as int,
            column as int,
        ),
{
    let ghost start = cell_views(cells@);
    match recipe {
        Some(r) => {
            let mut heading: String = label.to_owned();
            heading.append(" :");
            cells.push(new_text_cell(row, column, heading.as_str(), CellStyle::Plain));
            let line: String = summary_text(r);
            cells.push(new_text_cell(row, column + 1, line.as_str(), CellStyle::Plain));
            assert(cell_views(cells@) =~= start + meal_summary_cells(
                label@,
                recipe_option_view(*recipe),
                row as int,
                column as int,
            ));
        },
        None => {
            assert(cell_views(cells@) =~= start + Seq::<SheetCellView>::empty());
        },
    }
}

/// The shopping-list sheet of `menu`: the headings, the ingredients with
/// their quantities and units, and beside them the summary of the week;
/// `None` where the sheet has no room for them.
pub fn write_shopping_list(menu: &Menu) -> (r: Option<Sheet>)
    ensures
        match r {
            Some(sheet) => shopping_list_fits(menu@) && sheet@ == shopping_list_sheet(menu@),
            None => !shopping_list_fits(menu@),
        },
{
    let ghost days = week_day_views(menu.week_days@);
    assert(menu@.all_ingredients.len() == menu.all_ingredients@.len());
    if menu.all_ingredients.len() > (MAX_SHEET_ROWS - 2) as usize {
        return None;
    }
    let mut cells: Vec<SheetCell> = Vec::new();
    cells.push(new_text_cell(1, 1, INGREDIENT_HEADING, CellStyle::ColumnHeader));
    cells.push(new_text_cell(1, 2, QUANTITY_HEADING, CellStyle::ColumnHeader));
    cells.push(new_text_cell(1, 5, SUMMARY_HEADING, CellStyle::ColumnHeader));
    let ghost head = cell_views(cells@);
    assert(head =~= seq![
        text_cell(1, 1, INGREDIENT_HEADING@, CellStyle::ColumnHeader),
        text_cell(1, 2, QUANTITY_HEADING@, CellStyle::ColumnHeader),
        text_cell(1, 5, SUMMARY_HEADING@, CellStyle::ColumnHeader),
    ]);
    write_ingredients(&mut cells, &menu.all_ingredients, 2, 1);
    let ghost list = cell_views(cells@);
    let mut writing_row: u32 = 2;
    let mut i: usize = 0;
    assert(days.take(0) =~= Seq::<WeekDayView>::empty());
    assert(cell_views(cells@) =~= list + summary_cells(days.take(0), 2, 5));
    while i < menu.week_days.len()
        invariant
            i <= menu.week_days@.len(),
            days == week_day_views(menu.week_days@),
            writing_row == 2 + summary_height(days.take(i as int)),
            writing_row <= MAX_SHEET_ROWS,
            cell_views(cells@) == list + summary_cells(days.take(i as int), 2, 5),
        decreases menu.week_days@.len() - i,
    {
        let week_day: &WeekDay = &menu.week_days[i];
        assert(days.take(i + 1).drop_last() =~= days.take(i as int));
        assert(days.take(i + 1).last() == week_day@);
        let height: u32 = 2 + if week_day.noon_recipe.is_some() {
            1u32
        } else {
            0u32
        } + if week_day.evening_recipe.is_some() {
            1u32
        } else {
            0u32
        };
        assert(height == day_summary_height(week_day@));
        if height > MAX_SHEET_ROWS - writing_row {
            proof {
                lemma_summary_height_grows(days, i + 1);
            }
            return None;
        }
        let ghost before = cell_views(cells@);
        cells.push(new_text_cell(writing_row, 5, week_day.name.as_str(), CellStyle::Plain));
        let ghost named = cell_views(cells@);
        assert(named =~= before + seq![
            text_cell(writing_row as int, 5, week_day@.name, CellStyle::Plain),
        ]);
        write_meal_summary(&mut cells, NOON, &week_day.noon_recipe, writing_row + 1, 5);
        let noon_rows: u32 = if week_day.noon_recipe.is_some() {
            1
        } else {
            0
        };
        write_meal_summary(
            &mut cells,
            EVENING,
            &week_day.evening_recipe,
            writing_row + 1 + noon_rows,
            5,
        );
        assert(cell_views(cells@) =~= before + day_summary_cells(
            week_day@,
            writing_row as int,
            5,
        ));
        writing_row = writing_row + height;
        i = i + 1;
    }
    assert(days.take(i as int) =~= days);
    assert(cell_views(cells@) =~= shopping_list_cells(menu@));
    Some(Sheet { name: SHOPPING_LIST_SHEET.to_owned(), cells })
}

/// The sheets of the workbook of `menu`: the shopping list first, then one
/// sheet for each day that has a recipe; `None` where a sheet has no room
/// for its cells.
pub fn write_excel_menu(menu: &Menu) -> (r: Option<Vec<Sheet>>)
    ensures
        match r {
            Some(sheets) => menu_fits(menu@) && sheet_views(sheets@) == menu_sheets(menu@),
            None => !menu_fits(menu@),
        },
{
    let ghost days = week_day_views(menu.week_days@);
    let mut sheets: Vec<Sheet> = Vec::new();
    match write_shopping_list(menu) {
        Some(sheet) => {
            sheets.push(sheet);
        },
        None => {
            return None;
        },
    }
    assert(sheet_views(sheets@) =~= seq![shopping_list_sheet(menu@)]);
    let mut i: usize = 0;
    assert(days.take(0) =~= Seq::<WeekDayView>::empty());
    assert(sheet_views(sheets@) =~= seq![shopping_list_sheet(menu@)] + day_sheets(days.take(0)));
    while i < menu.week_days.len()
        invariant
            i <= menu.week_days@.len(),
            days == week_day_views(menu.week_days@),
            days == menu@.week_days,
            shopping_list_fits(menu@),
            days_fit(days.take(i as int)),
            sheet_views(sheets@) == seq![shopping_list_sheet(menu@)] + day_sheets(
                days.take(i as int),
            ),
        decreases menu.week_days@.len() - i,
    {
        let day: &WeekDay = &menu.week_days[i];
        assert(days.take(i + 1).drop_last() =~= days.take(i as int));
        assert(days.take(i + 1).last() == day@);
        assert(days[i as int] == day@);
        let ghost before = sheet_views(sheets@);
        if day.noon_recipe.is_some() || day.evening_recipe.is_some() {
            match write_day(day) {
                Some(sheet) => {
                    sheets.push(sheet);
                    assert(sheet_views(sheets@) =~= before.push(day_sheet(day@)));
                },
                None => {
                    return None;
                },
            }
        }
        assert forall|k: int| 0 <= k < i + 1 && is_planned(
            #[trigger] days.take(i + 1)[k],
        ) implies day_fits(days.take(i + 1)[k]) by {
            if k < i {
                assert(days.take(i as int)[k] == days.take(i + 1)[k]);
            }
        }
        i = i + 1;
    }
    assert(days.take(i as int) =~= days);
    Some(sheets)
}

/// What is read of one cell of a sheet.
#[derive(Clone, Debug)]
pub struct ReadCell {
    /// The cell as text; empty for an empty cell.
    pub text: String,
    /// The cell as a whole number, if it can be taken as one.
    pub whole_number: Option<i64>,
    /// Whether the cell holds nothing.
    pub is_empty: bool,
}

/// What is read of one cell of a sheet, as mathematical values.
pub struct ReadCellView {
    pub text: Seq<char>,
    pub whole_number: Option<i64>,
    pub is_empty: bool,
}

impl View for ReadCell {
    type V = ReadCellView;

    open spec fn view(&self) -> ReadCellView {
        ReadCellView { text: self.text@, whole_number: self.whole_number, is_empty: self.is_empty }
    }
}

/// The used part of a sheet as it is read: its cells row by row, `width`
/// cells to a row, from the first used row and column.
#[derive(Clone, Debug)]
pub struct SheetRange {
    pub width: usize,
    pub cells: Vec<ReadCell>,
}

/// The used part of a sheet, as mathematical values.
pub struct SheetRangeView {
    pub width: int,
    pub cells: Seq<ReadCellView>,
}

impl View for SheetRange {
    type V = SheetRangeView;

    open spec fn view(&self) -> SheetRangeView {
        SheetRangeView {
            width: self.width as int,
            cells: self.cells@.map_values(|c: ReadCell| c@),
        }
    }
}

/// The condition of reading as the text `text`.
pub open spec fn reads_as(text: Seq<char>) -> spec_fn(ReadCellView) -> bool {
    |c: ReadCellView| c.text == text
}

/// The place, row by row, of the first cell that reads as `label`; the
/// number of cells where none does.
pub open spec fn label_position(range: SheetRangeView, label: Seq<char>) -> int {
    first_match(range.cells, reads_as(label))
}

/// The cell in the row `row` and the column `column` of the range, if the
/// range reaches that far.
pub open spec fn cell_at(range: SheetRangeView, row: int, column: int) -> Option<ReadCellView> {
    if 0 <= row && 0 <= column < range.width && row * range.width + column < range.cells.len() {
        Some(range.cells[row * range.width + column])
    } else {
        None
    }
}

/// The servings that the cell beside a recipe's name asks for: the whole
/// number in it, taken modulo 256; none where the cell is missing, holds
/// nothing or holds no number.
pub open spec fn servings_override(c: Option<ReadCellView>) -> Option<int> {
    match c {
        Some(cell) => if cell.is_empty {
            None
        } else {
            match cell.whole_number {
                Some(v) => Some(v as int % 256),
                None => None,
            }
        },
        None => None,
    }
}

/// The recipe of the meal labelled `label` in the sheet: under the first
/// cell that reads as the label stands the name of the recipe, which is
/// looked up in `catalog`; the cell beside the name may ask for other
/// servings. None where the label, the name or the recipe is missing.
pub open spec fn extracted(catalog: Seq<RecipeView>, range: SheetRangeView, label: Seq<char>) -> Option<
    RecipeView,
> {
    let at = label_position(range, label);
    if range.width <= 0 || at >= range.cells.len() {
        None
    } else {
        let row = at / range.width;
        let column = at % range.width;
        match cell_at(range, row + 1, column) {
            Some(name) => {
                let found = position_of(catalog, name.text);
                if found >= catalog.len() {
                    None
                } else {
                    match servings_override(cell_at(range, row + 1, column + 1)) {
                        Some(n) => Some(
                            RecipeView { configured_nbr_persons: n, ..catalog[found] },
                        ),
                        None => Some(catalog[found]),
                    }
                }
            },
            None => None,
        }
    }
}

/// The day `day` with the recipes that the sheet gives for its two meals.
pub open spec fn read_day(catalog: Seq<RecipeView>, day: WeekDayView, range: SheetRangeView) -> WeekDayView {
    WeekDayView {
        noon_recipe: extracted(catalog, range, NOON@),
        evening_recipe: extracted(catalog, range, EVENING@),
        ..day
    }
}

/// The last of `days` that is named `name`.
pub open spec fn day_named(days: Seq<WeekDayView>, name: Seq<char>) -> Option<WeekDayView>
    decreases days.len(),
{
    if days.len() == 0 {
        None
    } else if days.last().name == name {
        Some(days.last())
    } else {
        day_named(days.drop_last(), name)
    }
}

/// The name and the range of each sheet in `sheets`.
pub open spec fn named_range_views(sheets: Seq<(String, SheetRange)>) -> Seq<
    (Seq<char>, SheetRangeView),
> {
    sheets.map_values(|s: (String, SheetRange)| (s.0@, s.1@))
}

/// The days that the sheets of a workbook give: for each sheet named like
/// one of `days`, in the order of the sheets, that day with the recipes of
/// the sheet.
pub open spec fn read_days(
    catalog: Seq<RecipeView>,
    days: Seq<WeekDayView>,
    sheets: Seq<(Seq<char>, SheetRangeView)>,
) -> Seq<WeekDayView>
    decreases sheets.len(),
{
    if sheets.len() == 0 {
        Seq::<WeekDayView>::empty()
    } else {
        let before = read_days(catalog, days, sheets.drop_last());
        match day_named(days, sheets.last().0) {
            Some(day) => before.push(read_day(catalog, day, sheets.last().1)),
            None => before,
        }
    }
}

/// The cell in the row `row` and the column `column` of the range.
fn read_cell(range: &SheetRange, row: usize, column: usize) -> (c: Option<&ReadCell>)
    ensures
        match c {
            Some(cell) => cell_at(range@, row as int, column as int) == Some(cell@),
            None => cell_at(range@, row as int, column as int) is None,
        },
{
    if column >= range.width {
        return None;
    }
    let full_rows: usize = range.cells.len() / range.width;
    let spare: usize = range.cells.len() % range.width;
    assert(range@.cells.len() == range.cells@.len());
    proof {
        let w = range.width as int;
        let n = range.cells@.len() as int;
        let r = row as int;
        let c = column as int;
        let q = full_rows as int;
        let m = spare as int;
        lemma_fundamental_div_mod(n, w);
        assert(n == w * q + m);
        assert(r < q ==> r * w + c < n) by (nonlinear_arith)
            requires
                0 <= c < w,
                0 <= r,
                0 <= m,
                n == w * q + m,
        ;
        assert(r == q ==> r * w + c == n - m + c) by (nonlinear_arith)
            requires
                n == w * q + m,
        ;
        assert(r > q ==> r * w + c >= n) by (nonlinear_arith)
            requires
                0 <= c,
                0 <= m < w,
                n == w * q + m,
        ;
    }
    if row > full_rows || (row == full_rows && column >= spare) {
        return None;
    }
    let cell: &ReadCell = &range.cells[row * range.width + column];
    Some(cell)
}

/// The servings that `cell` asks for.
fn read_override(cell: Option<&ReadCell>) -> (n: Option<u8>)
    ensures
        match n {
            Some(v) => servings_override(
                match cell {
                    Some(c) => Some(c@),
                    None => None,
                },
            ) == Some(v as int),
            None => servings_override(
                match cell {
                    Some(c) => Some(c@),
                    None => None,
                },
            ) is None,
        },
{
    match cell {
        Some(c) => {
            if c.is_empty {
                None
            } else {
                match c.whole_number {
                    Some(v) => {
                        if v >= 0 {
                            Some((v % 256) as u8)
                        } else {
                            Some((255 - ((-(v + 1)) % 256)) as u8)
                        }
                    },
                    None => None,
                }
            }
        },
        None => None,
    }
}

/// The recipe of the meal labelled `slot_name` in the sheet: under the
/// first cell that reads as the label stands the name of the recipe, which
/// is looked up in the catalog; the cell beside the name may ask for other
/// servings. `None` where the label, the name or the recipe is missing.
pub fn find_recipe_in(recipe_service: &RecipeService, sheet_range: &SheetRange, slot_name: &str) -> (r:
    Option<Recipe>)
    ensures
        recipe_option_view(r) == extracted(
            recipe_service.recipe_repository@,
            sheet_range@,
            slot_name@,
        ),
{
    let label: String = slot_name.to_owned();
    let ghost cells = sheet_range@.cells;
    let mut at: usize = 0;
    while at < sheet_range.cells.len() && sheet_range.cells[at].text != label
        invariant
            at <= sheet_range.cells@.len(),
            cells == sheet_range@.cells,
            label@ == slot_name@,
            forall|k: int| 0 <= k < at ==> (#[trigger] cells[k]).text != slot_name@,
        decreases sheet_range.cells@.len() - at,
    {
        at = at + 1;
    }
    proof {
        lemma_first_match_found(cells, reads_as(slot_name@), at as int);
    }
    if sheet_range.width == 0 || at >= sheet_range.cells.len() {
        return None;
    }
    let row: usize = at / sheet_range.width;
    let column: usize = at % sheet_range.width;
    let name: &ReadCell = match read_cell(sheet_range, row + 1, column) {
        Some(c) => c,
        None => {
            return None;
        },
    };
    let mut recipe: Recipe = match recipe_service.find_recipe_by_name(&name.text) {
        Ok(r) => r,
        Err(_) => {
            return None;
        },
    };
    if column < usize::MAX {
        match read_override(read_cell(sheet_range, row + 1, column + 1)) {
            Some(n) => {
                recipe.configured_nbr_persons = n;
            },
            None => {},
        }
    } else {
        assert(cell_at(sheet_range@, row + 1, column + 1) is None);
    }
    Some(recipe)
}

/// The day `current_week_day` with the recipes that the sheet gives for
/// its noon and evening meals.
pub fn read_week_day(
    recipe_service: &RecipeService,
    current_week_day: &WeekDay,
    sheet_range: &SheetRange,
) -> (r: WeekDay)
    ensures
        r@ == read_day(recipe_service.recipe_repository@, current_week_day@, sheet_range@),
{
    WeekDay {
        name: current_week_day.name.clone(),
        noon_recipe_slot: current_week_day.noon_recipe_slot,
        evening_recipe_slot: current_week_day.evening_recipe_slot,
        noon_recipe: find_recipe_in(recipe_service, sheet_range, NOON),
        evening_recipe: find_recipe_in(recipe_service, sheet_range, EVENING),
    }
}

/// The last of `week_days` that is named `name`.
fn find_day<'a>(week_days: &'a Vec<WeekDay>, name: &String) -> (r: Option<&'a WeekDay>)
    ensures
        match r {
            Some(day) => day_named(week_day_views(week_days@), name@) == Some(day@),
            None => day_named(week_day_views(week_days@), name@) is None,
        },
{
    let ghost days = week_day_views(week_days@);
    let mut i: usize = week_days.len();
    assert(days.take(i as int) =~= days);
    while i > 0
        invariant
            i <= week_days@.len(),
            days == week_day_views(week_days@),
            day_named(days, name@) == day_named(days.take(i as int), name@),
        decreases i,
    {
        assert(days.take(i as int).drop_last() =~= days.take(i - 1));
        assert(days.take(i as int).last() == week_days@[i - 1]@);
        if week_days[i - 1].name == *name {
            return Some(&week_days[i - 1]);
        }
        i = i - 1;
    }
    None
}

/// The days that the sheets of a workbook give: for each sheet named like
/// one of `week_days`, in the order of the sheets, that day with the
/// recipes of the sheet. `None` where no sheet is named like a day.
pub fn read_week_days(
    recipe_service: &RecipeService,
    week_days: &Vec<WeekDay>,
    sheets: &Vec<(String, SheetRange)>,
) -> (r: Option<Vec<WeekDay>>)
    ensures
        match r {
            Some(days) => days@.len() > 0 && week_day_views(days@) == read_days(
                recipe_service.recipe_repository@,
                week_day_views(week_days@),
                named_range_views(sheets@),
            ),
            None => read_days(
                recipe_service.recipe_repository@,
                week_day_views(week_days@),
                named_range_views(sheets@),
            ).len() == 0,
        },
{
    let ghost catalog = recipe_service.recipe_repository@;
    let ghost days = week_day_views(week_days@);
    let ghost all = named_range_views(sheets@);
    let mut loaded_week_days: Vec<WeekDay> = Vec::new();
    let mut i: usize = 0;
    assert(all.take(0) =~= Seq::<(Seq<char>, SheetRangeView)>::empty());
    assert(week_day_views(loaded_week_days@) =~= read_days(catalog, days, all.take(0)));
    while i < sheets.len()
        invariant
            i <= sheets@.len(),
            catalog == recipe_service.recipe_repository@,
            days == week_day_views(week_days@),
            all == named_range_views(sheets@),
            week_day_views(loaded_week_days@) == read_days(catalog, days, all.take(i as int)),
        decreases sheets@.len() - i,
    {
        let sheet: &(String, SheetRange) = &sheets[i];
        assert(all.take(i + 1).drop_last() =~= all.take(i as int));
        assert(all.take(i + 1).last() == (sheet.0@, sheet.1@));
        let ghost before = week_day_views(loaded_week_days@);
        match find_day(week_days, &sheet.0) {
            Some(day) => {
                let read: WeekDay = read_week_day(recipe_service, day, &sheet.1);
                let ghost read_view = read@;
                loaded_week_days.push(read);
                assert(week_day_views(loaded_week_days@) =~= before.push(read_view));
            },
            None => {},
        }
        i = i + 1;
    }
    assert(all.take(i as int) =~= all);
    assert(week_day_views(loaded_week_days@).len() == loaded_week_days@.len());
    if loaded_week_days.len() > 0 {
        Some(loaded_week_days)
    } else {
        None
    }
}

/// `calamine::Range`, the used cells of a sheet that was read from a file.
/// The library sees nothing inside it.
#[verifier::external_type_specification]
#[verifier::external_body]
#[verifier::reject_recursive_types(T)]
pub struct ExRange<T>(calamine::Range<T>);

/// `calamine::Data`, what one such cell holds. The library sees nothing
/// inside it.
#[verifier::external_type_specification]
#[verifier::external_body]
pub struct ExData(calamine::Data);

/// What the cells of a range read as, row by row: for each cell its text
/// (`to_string`), the whole number it can be taken as (`DataType::as_i64`),
/// and whether it holds nothing (`DataType::is_empty`). Nothing is said
/// here of how a cell becomes a text or a number.
pub uninterp spec fn range_cells(range: calamine::Range<calamine::Data>) -> Seq<
    (Seq<char>, Option<i64>, bool),
>;

/// The number of cells in a row of a range, as `Range::width` gives it.
pub uninterp spec fn range_width(range: calamine::Range<calamine::Data>) -> nat;

/// Taken on trust from calamine: `Range::cells` yields every cell of the
/// range row by row, and `to_string`, `DataType::as_i64` and
/// `DataType::is_empty` give for one cell always the same. The cells that
/// are handed out are the cells of the range, in that order.
#[verifier::external_body]
fn cells_of_range(range: &calamine::Range<calamine::Data>) -> (cells: Vec<ReadCell>)
    ensures
        cells@.map_values(|c: ReadCell| (c.text@, c.whole_number, c.is_empty)) == range_cells(
            *range,
        ),
{
    range.cells().map(
        |(_, _, data)|
            ReadCell {
                text: data.to_string(),
                whole_number: data.as_i64(),
                is_empty: data.is_empty(),
            },
    ).collect()
}

/// Taken on trust from calamine: `Range::width` gives the number of
/// columns of the range, which depends on the range alone.
#[verifier::external_body]
fn width_of_range(range: &calamine::Range<calamine::Data>) -> (width: usize)
    ensures
        width == range_width(*range),
{
    range.width()
}

/// A range as the library reads it.
pub open spec fn range_view(range: calamine::Range<calamine::Data>) -> SheetRangeView {
    SheetRangeView {
        width: range_width(range) as int,
        cells: range_cells(range).map_values(
            |c: (Seq<char>, Option<i64>, bool)|
                ReadCellView { text: c.0, whole_number: c.1, is_empty: c.2 },
        ),
    }
}

/// The name and the range of each sheet in `sheets`, as the library reads
/// them.
pub open spec fn workbook_view(sheets: Seq<(String, calamine::Range<calamine::Data>)>) -> Seq<
    (Seq<char>, SheetRangeView),
> {
    sheets.map_values(|s: (String, calamine::Range<calamine::Data>)| (s.0@, range_view(s.1)))
}

/// The cells of `range` and its width, as plain values.
pub fn read_range(range: &calamine::Range<calamine::Data>) -> (r: SheetRange)
    ensures
        r@ == range_view(*range),
{
    let cells: Vec<ReadCell> = cells_of_range(range);
    let width: usize = width_of_range(range);
    let r = SheetRange { width, cells };
    proof {
        let mapped = cells@.map_values(|c: ReadCell| (c.text@, c.whole_number, c.is_empty));
        assert forall|k: int| 0 <= k < cells@.len() implies #[trigger] r@.cells[k] == range_view(
            *range,
        ).cells[k] by {
            assert(mapped[k] == (cells@[k].text@, cells@[k].whole_number, cells@[k].is_empty));
        }
        assert(r@.cells =~= range_view(*range).cells);
    }
    r
}

/// The recipe of the meal labelled `slot_name` in the sheet: under the
/// first cell that reads as the label stands the name of the recipe, which
/// is looked up in the catalog; the cell beside the name may ask for other
/// servings. `None` where the label, the name or the recipe is missing.
pub fn extract_recipe(
    recipe_service: &RecipeService,
    sheet_range: &calamine::Range<calamine::Data>,
    slot_name: &str,
) -> (r: Option<Recipe>)
    ensures
        recipe_option_view(r) == extracted(
            recipe_service.recipe_repository@,
            range_view(*sheet_range),
            slot_name@,
        ),
{
    let range: SheetRange = read_range(sheet_range);
    find_recipe_in(recipe_service, &range, slot_name)
}

/// The day `current_week_day` with the recipes that the sheet gives for
/// its noon and evening meals.
pub fn extract_data_from_sheet(
    recipe_service: &RecipeService,
    current_week_day: &WeekDay,
    sheet_range: &calamine::Range<calamine::Data>,
) -> (r: WeekDay)
    ensures
        r@ == read_day(
            recipe_service.recipe_repository@,
            current_week_day@,
            range_view(*sheet_range),
        ),
{
    let range: SheetRange = read_range(sheet_range);
    read_week_day(recipe_service, current_week_day, &range)
}

/// The days that the sheets of a workbook give: for each sheet named like
/// one of `week_days`, in the order of the sheets, that day with the
/// recipes of the sheet. `None` where no sheet is named like a day.
pub fn read_from_excel_menu(
    recipe_service: &RecipeService,
    week_days: Vec<WeekDay>,
    sheets: &Vec<(String, calamine::Range<calamine::Data>)>,
) -> (r: Option<Vec<WeekDay>>)
    ensures
        match r {
            Some(days) => days@.len() > 0 && week_day_views(days@) == read_days(
                recipe_service.recipe_repository@,
                week_day_views(week_days@),
                workbook_view(sheets@),
            ),
            None => read_days(
                recipe_service.recipe_repository@,
                week_day_views(week_days@),
                workbook_view(sheets@),
            ).len() == 0,
        },
{
    let mut read: Vec<(String, SheetRange)> = Vec::new();
    let mut i: usize = 0;
    while i < sheets.len()
        invariant
            i <= sheets@.len(),
            read@.len() == i,
            forall|k: int|
                0 <= k < i ==> (#[trigger] read@[k]).0@ == sheets@[k].0@ && read@[k].1@
                    == range_view(sheets@[k].1),
        decreases sheets@.len() - i,
    {
        let sheet: &(String, calamine::Range<calamine::Data>) = &sheets[i];
        read.push((sheet.0.clone(), read_range(&sheet.1)));
        i = i + 1;
    }
    assert(named_range_views(read@) =~= workbook_view(sheets@));
    read_week_days(recipe_service, &week_days, &read)
}

} // verus!
