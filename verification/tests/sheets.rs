use calamine::{Data, Range, Reader, Xlsx};
use menus_manager::controller::main_controller::{
    Effect, MainController, Message, RecipeSlot, SLOT_COUNT,
};
use menus_manager::model::ingredient::{Ingredient, WHOLE_INGREDIENT};
use menus_manager::model::menu::Menu;
use menus_manager::model::quantity::Quantity;
use menus_manager::model::recipe::{Recipe, EVENING, NOON};
use menus_manager::model::weekday::{WeekDay, MONDAY, TUESDAY};
use menus_manager::service::excel_service::{
    count_text, extract_data_from_sheet, extract_recipe, find_recipe_in, read_from_excel_menu,
    read_range, read_week_day, read_week_days, write_day, write_excel_menu, write_recipe,
    write_shopping_list, CellContent, CellStyle, DailyRecipeSlot, ReadCell, Sheet, SheetCell,
    SheetRange, MAX_SHEET_ROWS,
};
use menus_manager::service::recipe_service::RecipeService;
use rust_xlsxwriter::Workbook;
use std::io::Cursor;

fn dish(name: &str, base: u8, configured: u8, what: &[(&str, &str, i64)], steps: &[&str]) -> Recipe {
    Recipe {
        name: name.to_string(),
        nbr_persons: base,
        configured_nbr_persons: configured,
        is_veggie: false,
        ingredients: what
            .iter()
            .map(|(n, u, q)| Ingredient {
                name: n.to_string(),
                unit: u.to_string(),
                quantity: Quantity::from_micros(*q),
            })
            .collect(),
        steps: steps.iter().map(|s| s.to_string()).collect(),
    }
}

fn day(name: &str, noon: Option<Recipe>, evening: Option<Recipe>) -> WeekDay {
    let mut d = WeekDay::new(name.to_string(), RecipeSlot::MondayNoon, RecipeSlot::MondayEvening);
    d.noon_recipe = noon;
    d.evening_recipe = evening;
    d
}

#[derive(Debug, PartialEq)]
enum Held {
    Text(String),
    Count(u8),
    Amount(i64),
}

fn shown(cells: &[SheetCell]) -> Vec<(u32, u16, Held, CellStyle)> {
    cells
        .iter()
        .map(|c| {
            let held = match &c.content {
                CellContent::Text(t) => Held::Text(t.clone()),
                CellContent::Count(n) => Held::Count(*n),
                CellContent::Amount(q) => Held::Amount(q.micros),
            };
            (c.row, c.column, held, c.style)
        })
        .collect()
}

fn text(row: u32, column: u16, t: &str, style: CellStyle) -> (u32, u16, Held, CellStyle) {
    (row, column, Held::Text(t.to_string()), style)
}

fn blank() -> ReadCell {
    ReadCell { text: String::new(), whole_number: None, is_empty: true }
}

fn word(t: &str) -> ReadCell {
    ReadCell { text: t.to_string(), whole_number: None, is_empty: false }
}

fn number(n: i64) -> ReadCell {
    ReadCell { text: n.to_string(), whole_number: Some(n), is_empty: false }
}

fn catalog() -> RecipeService {
    let mut s = RecipeService::new();
    s.recipe_repository.add_recipe(dish("Pasta", 2, 2, &[("pasta", "g", 200_000_000)], &["Boil."]));
    s.recipe_repository.add_recipe(dish(
        "Omelette",
        1,
        1,
        &[("eggs", WHOLE_INGREDIENT, 3_000_000), ("butter", "g", 10_000_000)],
        &["Beat.", "Fry."],
    ));
    s.recipe_repository.add_recipe(dish("Salad", 4, 4, &[], &[]));
    s
}

#[test]
fn numbers_in_digits() {
    assert_eq!(count_text(0), "0");
    assert_eq!(count_text(7), "7");
    assert_eq!(count_text(10), "10");
    assert_eq!(count_text(42), "42");
    assert_eq!(count_text(100), "100");
    assert_eq!(count_text(109), "109");
    assert_eq!(count_text(255), "255");
    for n in 0..=255u8 {
        assert_eq!(count_text(n), n.to_string());
    }
}

#[test]
fn the_sheet_of_a_day() {
    let noon = dish(
        "Omelette",
        1,
        2,
        &[("eggs", WHOLE_INGREDIENT, 6_000_000), ("butter", "g", 20_000_000)],
        &["Beat.", "Fry."],
    );
    let evening = dish("Salad", 4, 4, &[], &["Toss."]);
    let sheet = write_day(&day("Lundi", Some(noon), Some(evening))).unwrap();
    assert_eq!(sheet.name, "Lundi");
    assert_eq!(
        shown(&sheet.cells),
        vec![
            text(1, 1, "Midi", CellStyle::ColumnHeader),
            text(2, 1, "Omelette", CellStyle::Bold),
            (2, 2, Held::Count(2), CellStyle::Plain),
            text(2, 3, "Personnes", CellStyle::Plain),
            text(3, 1, "eggs", CellStyle::Plain),
            (3, 2, Held::Amount(6_000_000), CellStyle::Plain),
            text(4, 1, "butter", CellStyle::Plain),
            (4, 2, Held::Amount(20_000_000), CellStyle::Plain),
            text(4, 3, "g", CellStyle::Plain),
            text(7, 1, "Beat.", CellStyle::Plain),
            text(8, 1, "Fry.", CellStyle::Plain),
            text(12, 1, "Soir", CellStyle::ColumnHeader),
            text(13, 1, "Salad", CellStyle::Bold),
            (13, 2, Held::Count(4), CellStyle::Plain),
            text(13, 3, "Personnes", CellStyle::Plain),
            text(16, 1, "Toss.", CellStyle::Plain),
        ]
    );
}

#[test]
fn the_sheet_of_a_day_without_lunch() {
    let evening = dish("Salad", 4, 4, &[], &[]);
    let sheet = write_day(&day("Mardi", None, Some(evening))).unwrap();
    assert_eq!(
        shown(&sheet.cells),
        vec![
            text(4, 1, "Soir", CellStyle::ColumnHeader),
            text(5, 1, "Salad", CellStyle::Bold),
            (5, 2, Held::Count(4), CellStyle::Plain),
            text(5, 3, "Personnes", CellStyle::Plain),
        ]
    );
    let empty = write_day(&day("Mardi", None, None)).unwrap();
    assert!(empty.cells.is_empty());
}

#[test]
fn one_meal_written_where_asked() {
    let d = day("Lundi", None, Some(dish("Salad", 4, 4, &[("oil", "l", 10_000)], &["Toss."])));
    let mut cells: Vec<SheetCell> = Vec::new();
    assert_eq!(write_recipe(&mut cells, &d, DailyRecipeSlot::Noon, 10, 3), 10);
    assert!(cells.is_empty());
    assert_eq!(write_recipe(&mut cells, &d, DailyRecipeSlot::Evening, 10, 3), 16);
    assert_eq!(
        shown(&cells),
        vec![
            text(10, 3, "Soir", CellStyle::ColumnHeader),
            text(11, 3, "Salad", CellStyle::Bold),
            (11, 4, Held::Count(4), CellStyle::Plain),
            text(11, 5, "Personnes", CellStyle::Plain),
            text(12, 3, "oil", CellStyle::Plain),
            (12, 4, Held::Amount(10_000), CellStyle::Plain),
            text(12, 5, "l", CellStyle::Plain),
            text(15, 3, "Toss.", CellStyle::Plain),
        ]
    );
}

#[test]
fn a_day_that_does_not_fit() {
    let steps: Vec<&str> = vec!["Stir."; (MAX_SHEET_ROWS - 5) as usize];
    let fits = dish("Long", 1, 1, &[], &steps);
    assert!(write_day(&day("Lundi", Some(fits.clone()), None)).is_none());
    assert!(write_day(&day("Lundi", None, Some(fits))).is_none());
    let steps: Vec<&str> = vec!["Stir."; (MAX_SHEET_ROWS - 8) as usize];
    let fits = dish("Long", 1, 1, &[], &steps);
    let sheet = write_day(&day("Lundi", Some(fits.clone()), None)).unwrap();
    assert_eq!(sheet.cells.last().unwrap().row, MAX_SHEET_ROWS - 4);
    let sheet = write_day(&day("Lundi", None, Some(fits.clone()))).unwrap();
    assert_eq!(sheet.cells.last().unwrap().row, MAX_SHEET_ROWS - 1);
    assert!(write_day(&day("Lundi", Some(dish("Short", 1, 1, &[], &[])), Some(fits))).is_none());
}

#[test]
fn the_shopping_list_sheet() {
    let menu = Menu {
        all_ingredients: vec![
            Ingredient {
                name: "flour".to_string(),
                unit: "kg".to_string(),
                quantity: Quantity::from_micros(2_000_000),
            },
            Ingredient {
                name: "eggs".to_string(),
                unit: WHOLE_INGREDIENT.to_string(),
                quantity: Quantity::from_micros(6_000_000),
            },
        ],
        week_days: vec![
            day("Lundi", Some(dish("Omelette", 1, 2, &[], &[])), Some(dish("Salad", 4, 12, &[], &[]))),
            day("Jeudi", None, Some(dish("Pasta", 2, 100, &[], &[]))),
            day("Samedi", None, None),
            day("Dimanche", Some(dish("Steak", 1, 0, &[], &[])), None),
        ],
    };
    let sheet = write_shopping_list(&menu).unwrap();
    assert_eq!(sheet.name, "Liste de courses");
    assert_eq!(
        shown(&sheet.cells),
        vec![
            text(1, 1, "Ingr\u{e9}dient", CellStyle::ColumnHeader),
            text(1, 2, "Quantit\u{e9}", CellStyle::ColumnHeader),
            text(1, 5, "R\u{e9}sum\u{e9} de la semaine", CellStyle::ColumnHeader),
            text(2, 1, "flour", CellStyle::Plain),
            (2, 2, Held::Amount(2_000_000), CellStyle::Plain),
            text(2, 3, "kg", CellStyle::Plain),
            text(3, 1, "eggs", CellStyle::Plain),
            (3, 2, Held::Amount(6_000_000), CellStyle::Plain),
            text(2, 5, "Lundi", CellStyle::Plain),
            text(3, 5, "Midi :", CellStyle::Plain),
            text(3, 6, "Omelette (2 personnes)", CellStyle::Plain),
            text(4, 5, "Soir :", CellStyle::Plain),
            text(4, 6, "Salad (12 personnes)", CellStyle::Plain),
            text(6, 5, "Jeudi", CellStyle::Plain),
            text(7, 5, "Soir :", CellStyle::Plain),
            text(7, 6, "Pasta (100 personnes)", CellStyle::Plain),
            text(9, 5, "Samedi", CellStyle::Plain),
            text(11, 5, "Dimanche", CellStyle::Plain),
            text(12, 5, "Midi :", CellStyle::Plain),
            text(12, 6, "Steak (0 personnes)", CellStyle::Plain),
        ]
    );
}

#[test]
fn the_sheets_of_a_workbook() {
    let menu = Menu {
        all_ingredients: Vec::new(),
        week_days: vec![
            day("Lundi", Some(dish("Omelette", 1, 2, &[], &[])), None),
            day("Mardi", None, None),
            day("Mercredi", None, Some(dish("Salad", 4, 4, &[], &[]))),
        ],
    };
    let sheets = write_excel_menu(&menu).unwrap();
    let names: Vec<&str> = sheets.iter().map(|s| s.name.as_str()).collect();
    assert_eq!(names, vec!["Liste de courses", "Lundi", "Mercredi"]);
    assert_eq!(sheets[1].cells.len(), 4);
    assert_eq!(sheets[2].cells[0].row, 4);

    let nothing = Menu { all_ingredients: Vec::new(), week_days: Vec::new() };
    let sheets = write_excel_menu(&nothing).unwrap();
    assert_eq!(sheets.len(), 1);
    assert_eq!(sheets[0].cells.len(), 3);
}

#[test]
fn a_workbook_that_does_not_fit() {
    let steps: Vec<&str> = vec!["Stir."; MAX_SHEET_ROWS as usize];
    let menu = Menu {
        all_ingredients: Vec::new(),
        week_days: vec![day("Lundi", Some(dish("Long", 1, 1, &[], &steps)), None)],
    };
    assert!(write_shopping_list(&menu).is_some());
    assert!(write_excel_menu(&menu).is_none());
}

#[test]
fn reading_a_recipe_from_a_sheet() {
    let service = catalog();
    let range = SheetRange {
        width: 3,
        cells: vec![
            word("Midi"), blank(), blank(),
            word("Omelette"), number(5), word("Personnes"),
            word("eggs"), number(15), blank(),
            blank(), blank(), blank(),
            word("Soir"), blank(), blank(),
            word("Pasta"), blank(), word("Personnes"),
        ],
    };
    let noon = find_recipe_in(&service, &range, NOON).unwrap();
    assert_eq!(noon.name, "Omelette");
    assert_eq!(noon.nbr_persons, 1);
    assert_eq!(noon.configured_nbr_persons, 5);
    assert_eq!(noon.ingredients.len(), 2);
    let evening = find_recipe_in(&service, &range, EVENING).unwrap();
    assert_eq!(evening.name, "Pasta");
    assert_eq!(evening.configured_nbr_persons, 2);
    assert!(find_recipe_in(&service, &range, "Matin").is_none());
}

#[test]
fn the_first_cell_with_the_label_counts() {
    let service = catalog();
    let range = SheetRange {
        width: 2,
        cells: vec![
            blank(), word("Midi"),
            word("Midi"), word("Salad"),
            word("Pasta"), number(9),
        ],
    };
    let r = find_recipe_in(&service, &range, "Midi").unwrap();
    assert_eq!(r.name, "Salad");
    assert_eq!(r.configured_nbr_persons, 4);
}

#[test]
fn servings_beside_the_name() {
    let service = catalog();
    let with = |beside: ReadCell| SheetRange {
        width: 2,
        cells: vec![word("Midi"), blank(), word("Pasta"), beside],
    };
    let servings = |beside: ReadCell| {
        find_recipe_in(&service, &with(beside), "Midi").unwrap().configured_nbr_persons
    };
    assert_eq!(servings(number(7)), 7);
    assert_eq!(servings(number(0)), 0);
    assert_eq!(servings(number(255)), 255);
    assert_eq!(servings(number(256)), 0);
    assert_eq!(servings(number(300)), 44);
    assert_eq!(servings(number(-1)), 255);
    assert_eq!(servings(number(-256)), 0);
    assert_eq!(servings(number(i64::MIN)), 0);
    assert_eq!(servings(number(i64::MAX)), 255);
    assert_eq!(servings(blank()), 2);
    assert_eq!(servings(word("many")), 2);
    assert_eq!(servings(ReadCell { text: "7".to_string(), whole_number: Some(7), is_empty: true }), 2);
    let narrow = SheetRange { width: 1, cells: vec![word("Midi"), word("Pasta")] };
    assert_eq!(find_recipe_in(&service, &narrow, "Midi").unwrap().configured_nbr_persons, 2);
}

#[test]
fn what_cannot_be_read() {
    let service = catalog();
    let unknown = SheetRange { width: 1, cells: vec![word("Midi"), word("Tofu")] };
    assert!(find_recipe_in(&service, &unknown, "Midi").is_none());
    let cut = SheetRange { width: 2, cells: vec![word("x"), word("Midi")] };
    assert!(find_recipe_in(&service, &cut, "Midi").is_none());
    let ragged = SheetRange { width: 2, cells: vec![word("x"), word("Midi"), word("Pasta")] };
    assert!(find_recipe_in(&service, &ragged, "Midi").is_none());
    let ragged = SheetRange { width: 2, cells: vec![word("Midi"), word("x"), word("Pasta")] };
    assert_eq!(find_recipe_in(&service, &ragged, "Midi").unwrap().name, "Pasta");
    let empty = SheetRange { width: 0, cells: Vec::new() };
    assert!(find_recipe_in(&service, &empty, "Midi").is_none());
    let flat = SheetRange { width: 0, cells: vec![word("Midi"), word("Pasta")] };
    assert!(find_recipe_in(&service, &flat, "Midi").is_none());
    let blank_label = SheetRange { width: 1, cells: vec![blank(), word("Pasta")] };
    assert_eq!(find_recipe_in(&service, &blank_label, "").unwrap().name, "Pasta");
}

#[test]
fn a_day_read_from_its_sheet() {
    let service = catalog();
    let range = SheetRange {
        width: 2,
        cells: vec![word("Soir"), blank(), word("Salad"), number(1)],
    };
    let monday = WeekDay::new(MONDAY.to_string(), RecipeSlot::MondayNoon, RecipeSlot::MondayEvening);
    let read = read_week_day(&service, &monday, &range);
    assert_eq!(read.name, "Lundi");
    assert_eq!(read.noon_recipe_slot, RecipeSlot::MondayNoon);
    assert_eq!(read.evening_recipe_slot, RecipeSlot::MondayEvening);
    assert!(read.noon_recipe.is_none());
    assert_eq!(read.evening_recipe.unwrap().configured_nbr_persons, 1);
}

#[test]
fn days_read_from_a_workbook() {
    let service = catalog();
    let week = vec![
        WeekDay::new(MONDAY.to_string(), RecipeSlot::MondayNoon, RecipeSlot::MondayEvening),
        WeekDay::new(TUESDAY.to_string(), RecipeSlot::TuesdayNoon, RecipeSlot::TuesdayEvening),
        WeekDay::new(MONDAY.to_string(), RecipeSlot::SundayNoon, RecipeSlot::SundayEvening),
    ];
    let pasta = SheetRange { width: 1, cells: vec![word("Midi"), word("Pasta")] };
    let salad = SheetRange { width: 1, cells: vec![word("Soir"), word("Salad")] };
    let sheets = vec![
        ("Liste de courses".to_string(), pasta.clone()),
        ("Mardi".to_string(), salad),
        ("Lundi".to_string(), pasta),
        ("lundi".to_string(), SheetRange { width: 0, cells: Vec::new() }),
    ];
    let days = read_week_days(&service, &week, &sheets).unwrap();
    assert_eq!(days.len(), 2);
    assert_eq!(days[0].name, "Mardi");
    assert_eq!(days[0].evening_recipe.as_ref().unwrap().name, "Salad");
    assert!(days[0].noon_recipe.is_none());
    assert_eq!(days[1].name, "Lundi");
    // of two days of one name, the later stands
    assert_eq!(days[1].noon_recipe_slot, RecipeSlot::SundayNoon);
    assert_eq!(days[1].noon_recipe.as_ref().unwrap().name, "Pasta");

    assert!(read_week_days(&service, &week, &Vec::new()).is_none());
    let others = vec![("Liste de courses".to_string(), SheetRange { width: 0, cells: Vec::new() })];
    assert!(read_week_days(&service, &week, &others).is_none());
}

fn save(sheets: &[Sheet]) -> Vec<u8> {
    let mut workbook = Workbook::new();
    for sheet in sheets {
        let worksheet = workbook.add_worksheet();
        worksheet.set_name(sheet.name.as_str()).unwrap();
        for cell in &sheet.cells {
            match &cell.content {
                CellContent::Text(t) => {
                    worksheet.write_string(cell.row, cell.column, t.as_str()).unwrap();
                }
                CellContent::Count(n) => {
                    worksheet.write_number(cell.row, cell.column, *n).unwrap();
                }
                CellContent::Amount(q) => {
                    worksheet
                        .write_number(cell.row, cell.column, q.micros as f64 / 1_000_000.0)
                        .unwrap();
                }
            }
        }
    }
    workbook.save_to_buffer().unwrap()
}

fn open(bytes: Vec<u8>) -> Vec<(String, Range<Data>)> {
    let mut workbook: Xlsx<Cursor<Vec<u8>>> = Xlsx::new(Cursor::new(bytes)).unwrap();
    workbook.worksheets()
}

fn seen(cell: &ReadCell) -> (String, Option<i64>, bool) {
    (cell.text.clone(), cell.whole_number, cell.is_empty)
}

#[test]
fn a_range_as_plain_values() {
    let mut range: Range<Data> = Range::new((2, 1), (4, 3));
    range.set_value((2, 1), Data::String("Midi".to_string()));
    range.set_value((3, 1), Data::String("Pasta".to_string()));
    range.set_value((3, 2), Data::Float(4.0));
    range.set_value((3, 3), Data::Int(-12));
    range.set_value((4, 1), Data::Float(0.25));
    range.set_value((4, 2), Data::Bool(true));
    range.set_value((4, 3), Data::String("17".to_string()));
    let read = read_range(&range);
    assert_eq!(read.width, 3);
    let cells: Vec<(String, Option<i64>, bool)> = read.cells.iter().map(seen).collect();
    assert_eq!(
        cells,
        vec![
            ("Midi".to_string(), None, false),
            (String::new(), None, true),
            (String::new(), None, true),
            ("Pasta".to_string(), None, false),
            ("4".to_string(), Some(4), false),
            ("-12".to_string(), Some(-12), false),
            ("0.25".to_string(), Some(0), false),
            ("true".to_string(), Some(1), false),
            ("17".to_string(), Some(17), false),
        ]
    );
    let empty: Range<Data> = Range::empty();
    let read = read_range(&empty);
    assert_eq!(read.width, 0);
    assert!(read.cells.is_empty());
}

#[test]
fn a_recipe_read_from_a_range() {
    let service = catalog();
    let mut range: Range<Data> = Range::new((1, 1), (5, 3));
    range.set_value((1, 1), Data::String("Midi".to_string()));
    range.set_value((2, 1), Data::String("Omelette".to_string()));
    range.set_value((2, 2), Data::Float(3.0));
    range.set_value((2, 3), Data::String("Personnes".to_string()));
    range.set_value((4, 1), Data::String("Soir".to_string()));
    range.set_value((5, 1), Data::String("Salad".to_string()));
    let noon = extract_recipe(&service, &range, NOON).unwrap();
    assert_eq!(noon.name, "Omelette");
    assert_eq!(noon.configured_nbr_persons, 3);
    let evening = extract_recipe(&service, &range, EVENING).unwrap();
    assert_eq!(evening.name, "Salad");
    assert_eq!(evening.configured_nbr_persons, 4);
    assert!(extract_recipe(&service, &range, "Matin").is_none());
    let monday = WeekDay::new(MONDAY.to_string(), RecipeSlot::MondayNoon, RecipeSlot::MondayEvening);
    let read = extract_data_from_sheet(&service, &monday, &range);
    assert_eq!(read.name, "Lundi");
    assert_eq!(read.noon_recipe.unwrap().name, "Omelette");
    assert_eq!(read.evening_recipe.unwrap().name, "Salad");
}

#[test]
fn a_full_week_written_and_read_again() {
    let service = catalog();
    let names = ["Pasta", "Omelette", "Salad"];
    let mut planner = MainController::new(service);
    for i in 0..SLOT_COUNT {
        let slot = RecipeSlot::from_index(i).unwrap();
        let chosen = Message::SelectedRecipe(slot, Some(names[i % 3].to_string()));
        assert!(planner.update(chosen).is_ok());
        let more = Message::IncrementedNbrPersonsOfRecipe(slot, (i * 7 % 11) as u8);
        assert!(planner.update(more).is_ok());
    }
    let menu = match planner.update(Message::GenerateRecipeDocument) {
        Ok(Effect::WriteMenu(menu)) => menu,
        _ => panic!("a menu was asked for"),
    };
    let sheets = write_excel_menu(&menu).unwrap();
    assert_eq!(sheets.len(), 8);
    let read = open(save(&sheets));
    assert_eq!(read.len(), 8);
    let week: Vec<WeekDay> = planner.week_days.clone();
    let days = read_from_excel_menu(&planner.recipe_service, week, &read).unwrap();
    assert_eq!(days.len(), 7);
    for (k, day) in days.iter().enumerate() {
        assert_eq!(day.name, planner.week_days[k].name);
        assert_eq!(day.noon_recipe_slot.index(), 2 * k);
        assert_eq!(day.evening_recipe_slot.index(), 2 * k + 1);
        let noon = day.noon_recipe.as_ref().unwrap();
        let evening = day.evening_recipe.as_ref().unwrap();
        let planned_noon = planner.selected_recipes[2 * k].as_ref().unwrap();
        let planned_evening = planner.selected_recipes[2 * k + 1].as_ref().unwrap();
        assert_eq!(noon.name, planned_noon.name);
        assert_eq!(noon.configured_nbr_persons, planned_noon.configured_nbr_persons);
        assert_eq!(noon.nbr_persons, planned_noon.nbr_persons);
        assert_eq!(evening.name, planned_evening.name);
        assert_eq!(evening.configured_nbr_persons, planned_evening.configured_nbr_persons);
    }
}

#[test]
fn a_week_with_gaps_written_and_read_again() {
    let mut planner = MainController::new(catalog());
    let chosen = [
        (RecipeSlot::MondayEvening, "Salad"),
        (RecipeSlot::ThursdayNoon, "Omelette"),
        (RecipeSlot::SundayNoon, "Pasta"),
        (RecipeSlot::SundayEvening, "Omelette"),
    ];
    for (slot, name) in chosen {
        assert!(planner.update(Message::SelectedRecipe(slot, Some(name.to_string()))).is_ok());
    }
    let menu = planner.generate_menu().unwrap();
    let read = open(save(&write_excel_menu(&menu).unwrap()));
    let week: Vec<WeekDay> = planner.week_days.clone();
    let days = read_from_excel_menu(&planner.recipe_service, week, &read).unwrap();
    let found: Vec<(String, Option<String>, Option<String>)> = days
        .iter()
        .map(|d| {
            (
                d.name.clone(),
                d.noon_recipe.as_ref().map(|r| r.name.clone()),
                d.evening_recipe.as_ref().map(|r| r.name.clone()),
            )
        })
        .collect();
    assert_eq!(
        found,
        vec![
            ("Lundi".to_string(), None, Some("Salad".to_string())),
            ("Jeudi".to_string(), Some("Omelette".to_string()), None),
            ("Dimanche".to_string(), Some("Pasta".to_string()), Some("Omelette".to_string())),
        ]
    );
}
