//! A menu that is written to a sheet and read again gives the same meals.
//!
//! What lies between writing and reading, the file and the programs that
//! write and read it, is not part of this library. This module states what
//! is expected of it, in [`shows`], and proves that under this expectation
//! the recipes read from the sheet of a day are the recipes written to it.

use crate::model::ingredient::IngredientView;
use crate::model::recipe::{RecipeView, EVENING, NOON};
use crate::model::weekday::{WeekDay, WeekDayView};
use crate::number::is_digit;
use crate::repository::recipe_repository::position_of;
use crate::search::lemma_first_match_found;
use crate::service::excel_service::{
    cell_at, day_cells, day_named, extracted, ingredient_cells, ingredient_rows, label_position,
    meal_cells, meal_end, read_day, read_days, reads_as, recipe_cells, servings_override,
    step_rows, text_cell, CellContentView, CellStyle, ReadCellView, SheetCellView,
    SheetRangeView, SERVINGS_WORD, SHOPPING_LIST_SHEET,
};
use vstd::arithmetic::div_mod::lemma_fundamental_div_mod_converse;
use vstd::prelude::*;

verus! {

/// Whether `t` begins like a number: with a digit or a minus sign.
pub open spec fn is_number_text(t: Seq<char>) -> bool {
    t.len() > 0 && (is_digit(t[0]) || t[0] == '-')
}

/// Whether a cell that is read holds what was written: a text reads as
/// itself, a count as that whole number, and a count or a quantity as a
/// text that begins like a number.
pub open spec fn reads(cell: ReadCellView, content: CellContentView) -> bool {
    &&& !cell.is_empty
    &&& match content {
        CellContentView::Text(t) => cell.text == t,
        CellContentView::Count(n) => cell.whole_number == Some(n as i64) && is_number_text(
            cell.text,
        ),
        CellContentView::Amount(_) => is_number_text(cell.text),
    }
}

/// The place, row by row, of the written cell `c` in a range that begins
/// at the row `top` and the column `left` and has `width` columns.
pub open spec fn place(c: SheetCellView, top: int, left: int, width: int) -> int {
    (c.row - top) * width + (c.column - left)
}

/// Whether the range `range`, which begins at the row `top` and the column
/// `left` of the sheet, shows the cells `cells` and nothing else: every
/// written cell lies within the range and reads as what was written, and
/// every cell of the range that reads as some text was written.
pub open spec fn shows(range: SheetRangeView, cells: Seq<SheetCellView>, top: int, left: int) -> bool {
    &&& range.width > 0
    &&& forall|k: int|
        0 <= k < cells.len() ==> {
            let c = #[trigger] cells[k];
            &&& top <= c.row
            &&& left <= c.column < left + range.width
            &&& place(c, top, left, range.width) < range.cells.len()
            &&& reads(range.cells[place(c, top, left, range.width)], c.content)
        }
    &&& forall|j: int|
        0 <= j < range.cells.len() && (#[trigger] range.cells[j]).text.len() > 0 ==> exists|k: int|
            0 <= k < cells.len() && place(#[trigger] cells[k], top, left, range.width) == j
}

/// Whether no name and no unit among `list` is the text `label`.
pub open spec fn ingredients_free_of(list: Seq<IngredientView>, label: Seq<char>) -> bool {
    forall|i: int|
        0 <= i < list.len() ==> (#[trigger] list[i]).name != label && list[i].unit != label
}

/// Whether nothing that is written of the recipe `r` is the text `label`:
/// not its name, not the name or the unit of an ingredient, not a step.
pub open spec fn free_of(r: RecipeView, label: Seq<char>) -> bool {
    &&& r.name != label
    &&& ingredients_free_of(r.ingredients, label)
    &&& forall|j: int| 0 <= j < r.steps.len() ==> #[trigger] r.steps[j] != label
}

/// The recipe that reading gives for a meal that was written with the
/// recipe `meal`: the recipe of that name in the catalog, for the servings
/// that were written; none where the catalog has no recipe of that name.
pub open spec fn read_back(catalog: Seq<RecipeView>, meal: Option<RecipeView>) -> Option<RecipeView> {
    match meal {
        Some(r) => if position_of(catalog, r.name) < catalog.len() {
            Some(
                RecipeView {
                    configured_nbr_persons: r.configured_nbr_persons,
                    ..catalog[position_of(catalog, r.name)]
                },
            )
        } else {
            None
        },
        None => None,
    }
}

/// The cells of ingredients lie in the rows and columns given to them, and
/// hold no text that the ingredients do not hold.
pub proof fn lemma_ingredient_rows(
    list: Seq<IngredientView>,
    first_row: int,
    column: int,
    label: Seq<char>,
)
    ensures
        forall|k: int|
            0 <= k < ingredient_rows(list, first_row, column).len() ==> {
                let c = #[trigger] ingredient_rows(list, first_row, column)[k];
                &&& first_row <= c.row < first_row + list.len()
                &&& column <= c.column <= column + 2
                &&& ingredients_free_of(list, label) ==> c.content != CellContentView::Text(label)
            },
    decreases list.len(),
{
    if list.len() > 0 {
        let before = ingredient_rows(list.drop_last(), first_row, column);
        let last = ingredient_cells(list.last(), first_row + list.len() - 1, column);
        lemma_ingredient_rows(list.drop_last(), first_row, column, label);
        assert forall|k: int| 0 <= k < ingredient_rows(list, first_row, column).len() implies {
            let c = #[trigger] ingredient_rows(list, first_row, column)[k];
            &&& first_row <= c.row < first_row + list.len()
            &&& column <= c.column <= column + 2
            &&& ingredients_free_of(list, label) ==> c.content != CellContentView::Text(label)
        } by {
            let c = ingredient_rows(list, first_row, column)[k];
            if k < before.len() {
                assert(c == before[k]);
                if ingredients_free_of(list, label) {
                    assert forall|i: int| 0 <= i < list.drop_last().len() implies (
                    #[trigger] list.drop_last()[i]).name != label && list.drop_last()[i].unit
                        != label by {
                        assert(list.drop_last()[i] == list[i]);
                    }
                }
            } else {
                assert(c == last[k - before.len()]);
                if ingredients_free_of(list, label) {
                    assert(list[list.len() - 1].name != label);
                }
            }
        }
    }
}

/// The cells of a recipe begin with the label, the name under it and the
/// servings beside the name; all lie from the first row of the recipe to
/// its last, in three columns; and after the label they hold no text that
/// the recipe does not hold, but for the word after the servings.
pub proof fn lemma_recipe_cells(
    label: Seq<char>,
    r: RecipeView,
    row: int,
    column: int,
    other: Seq<char>,
)
    ensures
        recipe_cells(label, r, row, column).len() >= 4,
        recipe_cells(label, r, row, column)[0] == text_cell(
            row,
            column,
            label,
            CellStyle::ColumnHeader,
        ),
        recipe_cells(label, r, row, column)[1] == text_cell(
            row + 1,
            column,
            r.name,
            CellStyle::Bold,
        ),
        recipe_cells(label, r, row, column)[2] == (SheetCellView {
            row: row + 1,
            column: column + 1,
            content: CellContentView::Count(r.configured_nbr_persons),
            style: CellStyle::Plain,
        }),
        forall|k: int|
            0 <= k < recipe_cells(label, r, row, column).len() ==> {
                let c = #[trigger] recipe_cells(label, r, row, column)[k];
                &&& row <= c.row < meal_end(Some(r), row)
                &&& column <= c.column <= column + 2
                &&& k >= 1 ==> c.row > row
                &&& k >= 1 && free_of(r, other) && other != SERVINGS_WORD@ ==> c.content
                    != CellContentView::Text(other)
            },
{
    let head = seq![
        text_cell(row, column, label, CellStyle::ColumnHeader),
        text_cell(row + 1, column, r.name, CellStyle::Bold),
        SheetCellView {
            row: row + 1,
            column: column + 1,
            content: CellContentView::Count(r.configured_nbr_persons),
            style: CellStyle::Plain,
        },
        text_cell(row + 1, column + 2, SERVINGS_WORD@, CellStyle::Plain),
    ];
    let list = ingredient_rows(r.ingredients, row + 2, column);
    let steps = step_rows(r.steps, row + 4 + r.ingredients.len(), column);
    let all = recipe_cells(label, r, row, column);
    assert(all == head + list + steps);
    lemma_ingredient_rows(r.ingredients, row + 2, column, other);
    assert(all[0] == head[0]);
    assert(all[1] == head[1]);
    assert(all[2] == head[2]);
    assert forall|k: int| 0 <= k < all.len() implies {
        let c = #[trigger] all[k];
        &&& row <= c.row < meal_end(Some(r), row)
        &&& column <= c.column <= column + 2
        &&& k >= 1 ==> c.row > row
        &&& k >= 1 && free_of(r, other) && other != SERVINGS_WORD@ ==> c.content
            != CellContentView::Text(other)
    } by {
        if k < 4 {
            assert(all[k] == head[k]);
        } else if k < 4 + list.len() {
            assert(all[k] == list[k - 4]);
        } else {
            let j = k - 4 - list.len();
            assert(all[k] == steps[j]);
            assert(steps[j] == text_cell(
                row + 4 + r.ingredients.len() + j,
                column,
                r.steps[j],
                CellStyle::Plain,
            ));
        }
    }
}

/// A cell in a later row has a later place.
pub proof fn lemma_place_by_row(a: SheetCellView, b: SheetCellView, top: int, left: int, width: int)
    requires
        width > 0,
        left <= a.column < left + width,
        left <= b.column < left + width,
        a.row < b.row,
    ensures
        place(a, top, left, width) < place(b, top, left, width),
{
    assert((a.row - top) * width + width <= (b.row - top) * width) by (nonlinear_arith)
        requires
            a.row < b.row,
            width > 0,
    ;
}

/// A label that no written cell holds is not found.
pub proof fn lemma_meal_missing(
    catalog: Seq<RecipeView>,
    range: SheetRangeView,
    cells: Seq<SheetCellView>,
    top: int,
    left: int,
    label: Seq<char>,
)
    requires
        shows(range, cells, top, left),
        label.len() > 0,
        !is_number_text(label),
        forall|k: int|
            0 <= k < cells.len() ==> (#[trigger] cells[k]).content != CellContentView::Text(label),
    ensures
        extracted(catalog, range, label) is None,
{
    let width = range.width;
    assert forall|j: int| 0 <= j < range.cells.len() implies !reads_as(label)(
        #[trigger] range.cells[j],
    ) by {
        if range.cells[j].text == label {
            let k = choose|k: int|
                0 <= k < cells.len() && place(#[trigger] cells[k], top, left, width) == j;
            assert(reads(range.cells[j], cells[k].content));
        }
    }
    lemma_first_match_found(range.cells, reads_as(label), range.cells.len() as int);
}

/// A meal is read as it was written, where the label stands at the head
/// of its cells, with the name under it and the servings beside the name,
/// and no cell before the label holds the label too.
pub proof fn lemma_meal_found(
    catalog: Seq<RecipeView>,
    range: SheetRangeView,
    cells: Seq<SheetCellView>,
    top: int,
    left: int,
    label: Seq<char>,
    r: RecipeView,
    h: int,
)
    requires
        shows(range, cells, top, left),
        label.len() > 0,
        !is_number_text(label),
        0 <= r.configured_nbr_persons <= 255,
        0 <= h,
        h + 2 < cells.len(),
        cells[h].content == CellContentView::Text(label),
        cells[h + 1].row == cells[h].row + 1,
        cells[h + 1].column == cells[h].column,
        cells[h + 1].content == CellContentView::Text(r.name),
        cells[h + 2].row == cells[h].row + 1,
        cells[h + 2].column == cells[h].column + 1,
        cells[h + 2].content == CellContentView::Count(r.configured_nbr_persons),
        forall|k: int|
            0 <= k < cells.len() && k != h ==> (#[trigger] cells[k]).content
                != CellContentView::Text(label) || place(cells[k], top, left, range.width) > place(
                cells[h],
                top,
                left,
                range.width,
            ),
    ensures
        extracted(catalog, range, label) == read_back(catalog, Some(r)),
{
    let width = range.width;
    let head = cells[h];
    let name = cells[h + 1];
    let count = cells[h + 2];
    let at = place(head, top, left, width);
    let row = head.row - top;
    let column = head.column - left;
    assert(0 <= row * width) by (nonlinear_arith)
        requires
            0 <= row,
            0 < width,
    ;
    assert(reads(range.cells[at], head.content));
    assert forall|j: int| 0 <= j < at implies !reads_as(label)(#[trigger] range.cells[j]) by {
        if range.cells[j].text == label {
            let k = choose|k: int|
                0 <= k < cells.len() && place(#[trigger] cells[k], top, left, width) == j;
            assert(reads(range.cells[j], cells[k].content));
        }
    }
    lemma_first_match_found(range.cells, reads_as(label), at);
    assert(label_position(range, label) == at);
    assert(at == row * width + column);
    lemma_fundamental_div_mod_converse(at, width, row, column);
    assert(place(name, top, left, width) == (row + 1) * width + column) by (nonlinear_arith)
        requires
            place(name, top, left, width) == (name.row - top) * width + (name.column - left),
            name.row - top == row + 1,
            name.column - left == column,
    ;
    assert(place(count, top, left, width) == (row + 1) * width + (column + 1)) by (nonlinear_arith)
        requires
            place(count, top, left, width) == (count.row - top) * width + (count.column - left),
            count.row - top == row + 1,
            count.column - left == column + 1,
    ;
    assert(reads(range.cells[place(name, top, left, width)], name.content));
    assert(reads(range.cells[place(count, top, left, width)], count.content));
    let name_cell = range.cells[(row + 1) * width + column];
    let count_cell = range.cells[(row + 1) * width + (column + 1)];
    assert(cell_at(range, row + 1, column) == Some(name_cell));
    assert(cell_at(range, row + 1, column + 1) == Some(count_cell));
    assert(name_cell.text == r.name);
    assert(count_cell.whole_number == Some(r.configured_nbr_persons as i64));
    assert(servings_override(Some(count_cell)) == Some(r.configured_nbr_persons));
}

/// The recipes read from the sheet of a day are the recipes written to it:
/// for each meal the recipe of the same name, taken from the catalog, for
/// the servings that were written; and no recipe for a meal that had none.
///
/// This holds where the range shows the cells of the day, and no text of
/// the noon recipe is the label of the evening meal, nor, for a day
/// without a noon recipe, a text of the evening recipe the label of the
/// noon meal: a label is looked for from the top of the sheet.
pub proof fn lemma_day_read_back(
    catalog: Seq<RecipeView>,
    day: WeekDay,
    range: SheetRangeView,
    top: int,
    left: int,
)
    requires
        shows(range, day_cells(day@), top, left),
        labels_are_clear(day@),
    ensures
        read_day(catalog, day@, range).noon_recipe == read_back(catalog, day@.noon_recipe),
        read_day(catalog, day@, range).evening_recipe == read_back(catalog, day@.evening_recipe),
{
    reveal_strlit("Midi");
    reveal_strlit("Soir");
    reveal_strlit("Personnes");
    let noon_label = NOON@;
    let evening_label = EVENING@;
    assert(noon_label.len() == 4 && noon_label[0] == 'M');
    assert(evening_label.len() == 4 && evening_label[0] == 'S');
    assert(SERVINGS_WORD@.len() == 9);
    assert(noon_label != evening_label);
    let width = range.width;
    let cells = day_cells(day@);
    let noon_cells = meal_cells(noon_label, day@.noon_recipe, 1, 1);
    let start = meal_end(day@.noon_recipe, 1) + 3;
    let evening_cells = meal_cells(evening_label, day@.evening_recipe, start, 1);
    assert(cells == noon_cells + evening_cells);
    assert forall|k: int| 0 <= k < noon_cells.len() implies cells[k] == #[trigger] noon_cells[k] by {}
    assert forall|k: int| 0 <= k < evening_cells.len() implies cells[noon_cells.len() + k]
        == #[trigger] evening_cells[k] by {}
    match day.noon_recipe {
        Some(noon_recipe) => {
            let noon = noon_recipe@;
            lemma_recipe_cells(noon_label, noon, 1, 1, evening_label);
            assert(cells[0] == noon_cells[0]);
            assert(cells[1] == noon_cells[1]);
            assert(cells[2] == noon_cells[2]);
            match day.evening_recipe {
                Some(evening_recipe) => {
                    let evening = evening_recipe@;
                    lemma_recipe_cells(evening_label, evening, start, 1, noon_label);
                    let h = noon_cells.len() as int;
                    assert(cells[h] == evening_cells[0]);
                    assert(cells[h + 1] == evening_cells[1]);
                    assert(cells[h + 2] == evening_cells[2]);
                    assert forall|k: int| 0 <= k < cells.len() && k != 0 implies place(
                        #[trigger] cells[k],
                        top,
                        left,
                        width,
                    ) > place(cells[0], top, left, width) by {
                        if k < h {
                            assert(cells[k] == noon_cells[k]);
                        } else {
                            assert(cells[k] == evening_cells[k - h]);
                        }
                        lemma_place_by_row(cells[0], cells[k], top, left, width);
                    }
                    lemma_meal_found(catalog, range, cells, top, left, noon_label, noon, 0);
                    assert forall|k: int| 0 <= k < cells.len() && k != h implies (
                    #[trigger] cells[k]).content != CellContentView::Text(evening_label) || place(
                        cells[k],
                        top,
                        left,
                        width,
                    ) > place(cells[h], top, left, width) by {
                        if k < h {
                            assert(cells[k] == noon_cells[k]);
                        } else {
                            assert(cells[k] == evening_cells[k - h]);
                            lemma_place_by_row(cells[h], cells[k], top, left, width);
                        }
                    }
                    lemma_meal_found(catalog, range, cells, top, left, evening_label, evening, h);
                },
                None => {
                    assert forall|k: int| 0 <= k < cells.len() && k != 0 implies place(
                        #[trigger] cells[k],
                        top,
                        left,
                        width,
                    ) > place(cells[0], top, left, width) by {
                        assert(cells[k] == noon_cells[k]);
                        lemma_place_by_row(cells[0], cells[k], top, left, width);
                    }
                    lemma_meal_found(catalog, range, cells, top, left, noon_label, noon, 0);
                    assert forall|k: int| 0 <= k < cells.len() implies (#[trigger] cells[k]).content
                        != CellContentView::Text(evening_label) by {
                        assert(cells[k] == noon_cells[k]);
                    }
                    lemma_meal_missing(catalog, range, cells, top, left, evening_label);
                },
            }
        },
        None => {
            match day.evening_recipe {
                Some(evening_recipe) => {
                    let evening = evening_recipe@;
                    lemma_recipe_cells(evening_label, evening, start, 1, noon_label);
                    assert(cells[0] == evening_cells[0]);
                    assert(cells[1] == evening_cells[1]);
                    assert(cells[2] == evening_cells[2]);
                    assert forall|k: int| 0 <= k < cells.len() && k != 0 implies place(
                        #[trigger] cells[k],
                        top,
                        left,
                        width,
                    ) > place(cells[0], top, left, width) by {
                        assert(cells[k] == evening_cells[k]);
                        lemma_place_by_row(cells[0], cells[k], top, left, width);
                    }
                    lemma_meal_found(catalog, range, cells, top, left, evening_label, evening, 0);
                    assert forall|k: int| 0 <= k < cells.len() implies (#[trigger] cells[k]).content
                        != CellContentView::Text(noon_label) by {
                        assert(cells[k] == evening_cells[k]);
                    }
                    lemma_meal_missing(catalog, range, cells, top, left, noon_label);
                },
                None => {
                    lemma_meal_missing(catalog, range, cells, top, left, noon_label);
                    lemma_meal_missing(catalog, range, cells, top, left, evening_label);
                },
            }
        },
    }
}

/// Whether the sheets `sheets`, as they are read from a workbook, show the
/// days `days` as they were written: after the sheet of the shopping list
/// comes one sheet for each day, under the name of the day, whose range,
/// beginning where `origins` says, shows the cells of the day.
pub open spec fn workbook_shows(
    sheets: Seq<(Seq<char>, SheetRangeView)>,
    days: Seq<WeekDay>,
    origins: Seq<(int, int)>,
) -> bool {
    &&& sheets.len() == days.len() + 1
    &&& origins.len() == days.len()
    &&& sheets[0].0 == SHOPPING_LIST_SHEET@
    &&& forall|k: int|
        0 <= k < days.len() ==> (#[trigger] sheets[k + 1]).0 == days[k]@.name && shows(
            sheets[k + 1].1,
            day_cells(days[k]@),
            origins[k].0,
            origins[k].1,
        )
}

/// Whether the recipes of `day` can be told apart when they are read: no
/// text of the noon recipe is the label of the evening meal, nor, for a
/// day without a noon recipe, a text of the evening recipe the label of
/// the noon meal.
pub open spec fn labels_are_clear(day: WeekDayView) -> bool {
    &&& day.noon_recipe is Some ==> free_of(day.noon_recipe->0, EVENING@)
    &&& day.noon_recipe is None && day.evening_recipe is Some ==> free_of(
        day.evening_recipe->0,
        NOON@,
    )
}

/// A week that is written to a workbook and read again gives the same
/// recipe for every meal: the days come back in the order of their sheets,
/// each as the day of that name in `week`, with, for each meal, the recipe
/// of the same name from the catalog, for the servings that were written.
///
/// This holds where the workbook shows the days, each day is named like a
/// day of `week`, no day of `week` is named like the sheet of the shopping
/// list, and the recipes of each day can be told apart.
pub proof fn lemma_week_read_back(
    catalog: Seq<RecipeView>,
    week: Seq<WeekDayView>,
    days: Seq<WeekDay>,
    sheets: Seq<(Seq<char>, SheetRangeView)>,
    origins: Seq<(int, int)>,
)
    requires
        workbook_shows(sheets, days, origins),
        day_named(week, SHOPPING_LIST_SHEET@) is None,
        forall|k: int|
            0 <= k < days.len() ==> day_named(week, (#[trigger] days[k])@.name) is Some
                && labels_are_clear(days[k]@),
    ensures
        read_days(catalog, week, sheets).len() == days.len(),
        forall|k: int|
            0 <= k < days.len() ==> #[trigger] read_days(catalog, week, sheets)[k] == (WeekDayView {
                noon_recipe: read_back(catalog, days[k]@.noon_recipe),
                evening_recipe: read_back(catalog, days[k]@.evening_recipe),
                ..day_named(week, days[k]@.name)->0
            }),
    decreases days.len(),
{
    if days.len() == 0 {
        assert(sheets.drop_last().len() == 0);
        assert(sheets.last() == sheets[0]);
        assert(read_days(catalog, week, sheets.drop_last()).len() == 0);
        assert(read_days(catalog, week, sheets) == read_days(catalog, week, sheets.drop_last()));
    } else {
        let n = days.len() as int;
        let last = days[n - 1];
        assert(sheets[n] == sheets.last());
        assert forall|k: int| 0 <= k < n - 1 implies (#[trigger] sheets.drop_last()[k + 1]).0
            == days.drop_last()[k]@.name && shows(
            sheets.drop_last()[k + 1].1,
            day_cells(days.drop_last()[k]@),
            origins.drop_last()[k].0,
            origins.drop_last()[k].1,
        ) by {
            assert(sheets.drop_last()[k + 1] == sheets[k + 1]);
        }
        assert forall|k: int| 0 <= k < n - 1 implies day_named(
            week,
            (#[trigger] days.drop_last()[k])@.name,
        ) is Some && labels_are_clear(days.drop_last()[k]@) by {
            assert(days.drop_last()[k] == days[k]);
        }
        lemma_week_read_back(catalog, week, days.drop_last(), sheets.drop_last(), origins.drop_last());
        let m = n - 1;
        assert(sheets[m + 1].0 == days[m]@.name && shows(
            sheets[m + 1].1,
            day_cells(days[m]@),
            origins[m].0,
            origins[m].1,
        ));
        assert(labels_are_clear(days[m]@));
        lemma_day_read_back(catalog, last, sheets[n].1, origins[n - 1].0, origins[n - 1].1);
        let before = read_days(catalog, week, sheets.drop_last());
        let day = day_named(week, last@.name)->0;
        assert(read_days(catalog, week, sheets) == before.push(
            read_day(catalog, day, sheets[n].1),
        ));
        assert forall|k: int| 0 <= k < n implies #[trigger] read_days(catalog, week, sheets)[k] == (
        WeekDayView {
            noon_recipe: read_back(catalog, days[k]@.noon_recipe),
            evening_recipe: read_back(catalog, days[k]@.evening_recipe),
            ..day_named(week, days[k]@.name)->0
        }) by {
            if k < n - 1 {
                assert(read_days(catalog, week, sheets)[k] == before[k]);
                assert(days.drop_last()[k] == days[k]);
            }
        }
    }
}

} // verus!
