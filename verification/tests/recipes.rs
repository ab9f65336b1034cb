use menus_manager::error::RecipeError;
use menus_manager::model::ingredient::{Ingredient, WHOLE_INGREDIENT};
use menus_manager::model::quantity::Quantity;
use menus_manager::model::recipe::Recipe;
use menus_manager::service::recipe_service::{
    is_recipe_file, merge_ingredient, RecipeReader, RecipeService, Section,
};
use menus_manager::text::chars_of;

fn ingredient(name: &str, unit: &str, micros: i64) -> Ingredient {
    Ingredient {
        name: name.to_string(),
        unit: unit.to_string(),
        quantity: Quantity::from_micros(micros),
    }
}

fn recipe(name: &str, base: u8, configured: u8, ingredients: Vec<Ingredient>) -> Recipe {
    Recipe {
        name: name.to_string(),
        nbr_persons: base,
        configured_nbr_persons: configured,
        is_veggie: false,
        ingredients,
        steps: Vec::new(),
    }
}

fn load(text: &str) -> Result<Recipe, RecipeError> {
    RecipeService::new().load_recipe(text)
}

fn listed(list: &[Ingredient]) -> Vec<(String, String, i64)> {
    list.iter().map(|i| (i.name.clone(), i.unit.clone(), i.quantity.micros)).collect()
}

fn entry(name: &str, unit: &str, micros: i64) -> (String, String, i64) {
    (name.to_string(), unit.to_string(), micros)
}

const FULL: &str = "Ratatouille\n\nPersons: 4\n\nveggie: yes\n\n250:g:flour\n3:eggs\n0.5 : l : milk\n\nMix.\n  Bake for an hour.  \n";

#[test]
fn a_new_recipe_is_empty_and_for_one() {
    let r = Recipe::new();
    assert_eq!(r.name, "");
    assert_eq!(r.nbr_persons, 1);
    assert_eq!(r.configured_nbr_persons, 1);
    assert!(!r.is_veggie);
    assert!(r.ingredients.is_empty());
    assert!(r.steps.is_empty());
}

#[test]
fn building_a_recipe_by_hand() {
    let mut r = Recipe::new();
    r.set_name("Soup".to_string());
    r.add_ingredient(ingredient("water", "l", 1_000_000));
    r.add_ingredient(ingredient("salt", WHOLE_INGREDIENT, 1_000_000));
    r.add_step("Boil.".to_string());
    r.add_step("Serve.".to_string());
    assert_eq!(r.name, "Soup");
    assert_eq!(
        listed(&r.ingredients),
        vec![entry("water", "l", 1_000_000), entry("salt", WHOLE_INGREDIENT, 1_000_000)]
    );
    assert_eq!(r.steps, vec!["Boil.", "Serve."]);
    let copy = r.clone();
    assert_eq!(copy.name, "Soup");
    assert_eq!(listed(&copy.ingredients), listed(&r.ingredients));
    assert_eq!(copy.steps, r.steps);
}

#[test]
fn scaling_to_the_same_servings_changes_nothing_written_in_hundredths() {
    let mut r = recipe(
        "Cake",
        4,
        4,
        vec![ingredient("flour", "g", 250_000_000), ingredient("butter", "kg", 120_000)],
    );
    assert_eq!(r.sync_with_configured_nbr_persons(), Ok(()));
    assert_eq!(
        listed(&r.ingredients),
        vec![entry("flour", "g", 250_000_000), entry("butter", "kg", 120_000)]
    );
    assert_eq!(r.nbr_persons, 4);
    assert_eq!(r.configured_nbr_persons, 4);
}

#[test]
fn scaling_to_the_same_servings_only_rounds() {
    let mut r = recipe("Cake", 3, 3, vec![ingredient("butter", "kg", 125_000)]);
    assert_eq!(r.sync_with_configured_nbr_persons(), Ok(()));
    assert_eq!(listed(&r.ingredients), vec![entry("butter", "kg", 130_000)]);
    assert_eq!(r.sync_with_configured_nbr_persons(), Ok(()));
    assert_eq!(listed(&r.ingredients), vec![entry("butter", "kg", 130_000)]);
}

#[test]
fn doubling_the_servings_doubles_the_quantities() {
    let list = vec![
        ingredient("flour", "g", 250_000_000),
        ingredient("eggs", WHOLE_INGREDIENT, 3_000_000),
        ingredient("milk", "l", 330_000),
    ];
    let mut once = recipe("Crepes", 4, 3, list.clone());
    let mut twice = recipe("Crepes", 4, 6, list);
    assert_eq!(once.sync_with_configured_nbr_persons(), Ok(()));
    assert_eq!(twice.sync_with_configured_nbr_persons(), Ok(()));
    // 250 * 3 / 4 = 187.5 and 250 * 6 / 4 = 375
    assert_eq!(once.ingredients[0].quantity.micros, 187_500_000);
    assert_eq!(twice.ingredients[0].quantity.micros, 375_000_000);
    // 3 * 3 / 4 = 2.25 and 3 * 6 / 4 = 4.5
    assert_eq!(once.ingredients[1].quantity.micros, 2_250_000);
    assert_eq!(twice.ingredients[1].quantity.micros, 4_500_000);
    // 0.33 * 3 / 4 = 0.2475 -> 0.25 and 0.33 * 6 / 4 = 0.495 -> 0.50
    assert_eq!(once.ingredients[2].quantity.micros, 250_000);
    assert_eq!(twice.ingredients[2].quantity.micros, 500_000);
    for k in 0..3 {
        let d = twice.ingredients[k].quantity.micros - 2 * once.ingredients[k].quantity.micros;
        assert!(-10_000 <= d && d <= 10_000);
    }
}

#[test]
fn doubling_may_differ_by_one_hundredth() {
    // 0.01 * 1 / 2 = 0.005 -> 0.01, doubled servings give 0.01 as well
    let mut once = recipe("Pinch", 2, 1, vec![ingredient("salt", "g", 10_000)]);
    let mut twice = recipe("Pinch", 2, 2, vec![ingredient("salt", "g", 10_000)]);
    assert_eq!(once.sync_with_configured_nbr_persons(), Ok(()));
    assert_eq!(twice.sync_with_configured_nbr_persons(), Ok(()));
    assert_eq!(once.ingredients[0].quantity.micros, 10_000);
    assert_eq!(twice.ingredients[0].quantity.micros, 10_000);
}

#[test]
fn a_recipe_for_nobody_cannot_be_scaled() {
    let mut r = recipe("Void", 0, 2, vec![ingredient("air", "l", 1_000_000)]);
    assert_eq!(r.sync_with_configured_nbr_persons(), Err(RecipeError::DivisionByZeroServings));
    assert_eq!(listed(&r.ingredients), vec![entry("air", "l", 1_000_000)]);
}

#[test]
fn nothing_to_cook_nothing_to_buy() {
    let service = RecipeService::new();
    let list = service.gather_all_ingredients_from_recipes_vector(&Vec::new()).unwrap();
    assert!(list.is_empty());
}

#[test]
fn two_recipes_with_flour_give_one_line() {
    let service = RecipeService::new();
    let a = recipe("Bread", 2, 2, vec![ingredient("flour", "kg", 1_000_000)]);
    let b = recipe("Cake", 4, 4, vec![ingredient("flour", "kg", 1_000_000)]);
    let list = service.gather_all_ingredients_from_recipes_vector(&vec![a, b]).unwrap();
    assert_eq!(listed(&list), vec![entry("flour", "kg", 2_000_000)]);
}

#[test]
fn ingredients_stay_where_they_first_came() {
    let service = RecipeService::new();
    let a = recipe(
        "Bread",
        2,
        4,
        vec![ingredient("flour", "kg", 1_000_000), ingredient("salt", "g", 5_000_000)],
    );
    let b = recipe(
        "Cake",
        4,
        2,
        vec![
            ingredient("sugar", "g", 100_000_000),
            ingredient("flour", "kg", 1_000_000),
            ingredient("flour", "g", 50_000_000),
            ingredient("Flour", "kg", 1_000_000),
        ],
    );
    let list = service.gather_all_ingredients_from_recipes_vector(&vec![a, b]).unwrap();
    assert_eq!(
        listed(&list),
        vec![
            entry("flour", "kg", 2_500_000),
            entry("salt", "g", 10_000_000),
            entry("sugar", "g", 50_000_000),
            entry("flour", "g", 25_000_000),
            entry("Flour", "kg", 500_000),
        ]
    );
}

#[test]
fn gathering_scales_each_recipe_before_it_adds() {
    let service = RecipeService::new();
    // 1/3 -> 0.33 each, summed after rounding: 0.66
    let a = recipe("A", 3, 1, vec![ingredient("oil", "l", 1_000_000)]);
    let b = recipe("B", 3, 1, vec![ingredient("oil", "l", 1_000_000)]);
    let list = service.gather_all_ingredients_from_recipes_vector(&vec![a, b]).unwrap();
    assert_eq!(listed(&list), vec![entry("oil", "l", 660_000)]);
}

#[test]
fn gathering_fails_on_a_recipe_for_nobody() {
    let service = RecipeService::new();
    let a = recipe("A", 1, 1, vec![ingredient("oil", "l", 1_000_000)]);
    let b = recipe("B", 0, 1, vec![ingredient("oil", "l", 1_000_000)]);
    assert_eq!(
        service.gather_all_ingredients_from_recipes_vector(&vec![a, b]).err(),
        Some(RecipeError::DivisionByZeroServings)
    );
}

#[test]
fn merging_one_ingredient() {
    let mut list = vec![ingredient("a", "g", 1_000_000), ingredient("b", "g", 2_000_000)];
    merge_ingredient(&mut list, &ingredient("b", "g", 500_000));
    merge_ingredient(&mut list, &ingredient("b", "kg", 500_000));
    merge_ingredient(&mut list, &ingredient("a", "g", i64::MAX));
    assert_eq!(
        listed(&list),
        vec![entry("a", "g", i64::MAX), entry("b", "g", 2_500_000), entry("b", "kg", 500_000)]
    );
}

#[test]
fn a_full_text_gives_every_field() {
    let r = load(FULL).unwrap();
    assert_eq!(r.name, "Ratatouille");
    assert_eq!(r.nbr_persons, 4);
    assert_eq!(r.configured_nbr_persons, 4);
    assert!(r.is_veggie);
    assert_eq!(
        listed(&r.ingredients),
        vec![
            entry("flour", "g", 250_000_000),
            entry("eggs", WHOLE_INGREDIENT, 3_000_000),
            entry("milk", "l", 500_000),
        ]
    );
    assert_eq!(r.steps, vec!["Mix.", "Bake for an hour."]);
}

#[test]
fn a_text_that_ends_early_leaves_the_rest_empty() {
    let r = load("Soup\n\nFor 2\n").unwrap();
    assert_eq!(r.name, "Soup");
    assert_eq!(r.nbr_persons, 2);
    assert!(!r.is_veggie);
    assert!(r.ingredients.is_empty());
    assert!(r.steps.is_empty());

    let r = load("Soup").unwrap();
    assert_eq!(r.name, "Soup");
    assert_eq!(r.nbr_persons, 1);
    assert_eq!(r.configured_nbr_persons, 1);

    let r = load("").unwrap();
    assert_eq!(r.name, "");
    assert_eq!(r.nbr_persons, 1);
    assert!(r.ingredients.is_empty());
    assert!(r.steps.is_empty());
}

#[test]
fn ingredient_lines() {
    let r = load("N\n\n1\n\nv n\n\n250:g:flour\n3:eggs\nno colon here\n1:2:3:4\n").unwrap();
    assert_eq!(
        listed(&r.ingredients),
        vec![entry("flour", "g", 250_000_000), entry("eggs", WHOLE_INGREDIENT, 3_000_000)]
    );
}

#[test]
fn the_whole_item_unit() {
    assert_eq!(WHOLE_INGREDIENT, "__WHOLE_INGREDIENT__");
}

#[test]
fn the_name_is_kept_as_written() {
    let r = load("  Tarte Tatin \r\n\r\npour 6\r\n").unwrap();
    assert_eq!(r.name, "  Tarte Tatin \r");
    assert_eq!(r.nbr_persons, 6);
}

#[test]
fn blank_lines_in_a_row_end_one_section() {
    let r = load("Soup\n\n \n\t\n\nFor 2\n\n\n\nveggie: oui\n").unwrap();
    assert_eq!(r.name, "Soup");
    assert_eq!(r.nbr_persons, 2);
    assert!(r.is_veggie);
}

#[test]
fn a_leading_blank_line_ends_the_name_section() {
    let r = load("\nFor 2\n").unwrap();
    assert_eq!(r.name, "");
    assert_eq!(r.nbr_persons, 2);
}

#[test]
fn comments_are_passed_over_everywhere() {
    let r = load(
        "# a recipe\nSoup\n  # still the name section\n\n# count\nFor 2\n\n#flag\nveggie: t\n\n# what goes in\n1:l:water\n#2:l:wine\n\n# steps\nBoil.\n",
    )
    .unwrap();
    assert_eq!(r.name, "Soup");
    assert_eq!(r.nbr_persons, 2);
    assert!(r.is_veggie);
    assert_eq!(listed(&r.ingredients), vec![entry("water", "l", 1_000_000)]);
    assert_eq!(r.steps, vec!["Boil."]);
}

#[test]
fn a_comment_between_blank_lines_does_not_split_them() {
    let r = load("Soup\n\n# note\n\nFor 2\n").unwrap();
    assert_eq!(r.nbr_persons, 2);
    assert!(!r.is_veggie);
}

#[test]
fn the_first_line_is_the_name_and_the_last_count_counts() {
    let r = load("Soup\nStew\n\nFor 2\nFor 3\n\nveggie: yes\nveggie: perhaps\n").unwrap();
    assert_eq!(r.name, "Soup");
    assert_eq!(r.nbr_persons, 3);
    assert_eq!(r.configured_nbr_persons, 3);
    assert!(r.is_veggie);
}

#[test]
fn the_words_for_yes_and_no() {
    for w in ["true", "yes", "oui", "y", "o", "t"] {
        let r = load(&format!("N\n\n1\n\nveggie: {}\n", w)).unwrap();
        assert!(r.is_veggie);
    }
    for w in ["false", "no", "non", "n", "f"] {
        let r = load(&format!("N\n\n1\n\nveggie: yes\nveggie: {}\n", w)).unwrap();
        assert!(!r.is_veggie);
    }
    for w in ["Yes", "TRUE", "maybe", "1", "oui."] {
        let r = load(&format!("N\n\n1\n\nveggie: {}\n", w)).unwrap();
        assert!(!r.is_veggie);
    }
}

#[test]
fn a_flag_line_needs_two_words() {
    assert_eq!(load("N\n\n1\n\nyes\n").err(), Some(RecipeError::MalformedRecipe));
    assert!(load("N\n\n1\n\nis it\n").is_ok());
}

#[test]
fn nothing_is_expected_after_the_steps() {
    assert_eq!(
        load("N\n\n1\n\nv y\n\n1:a\n\nstep\n\nmore\n").err(),
        Some(RecipeError::MalformedRecipe)
    );
    assert!(load("N\n\n1\n\nv y\n\n1:a\n\nstep\n\n\n# the end\n\n").is_ok());
}

#[test]
fn serving_counts_that_are_refused() {
    assert_eq!(load("N\n\nfor many\n").err(), Some(RecipeError::InvalidServingCount));
    assert_eq!(load("N\n\nfor 0\n").err(), Some(RecipeError::InvalidServingCount));
    assert_eq!(load("N\n\nfor 256\n").err(), Some(RecipeError::InvalidServingCount));
    assert_eq!(load("N\n\nfor -2\n").err(), Some(RecipeError::InvalidServingCount));
    assert_eq!(load("N\n\n4 persons\n").err(), Some(RecipeError::InvalidServingCount));
    assert_eq!(load("N\n\n255\n").unwrap().nbr_persons, 255);
}

#[test]
fn quantities_that_are_refused() {
    assert_eq!(load("N\n\n1\n\nv y\n\nsome:g:flour\n").err(), Some(RecipeError::InvalidQuantity));
    assert_eq!(load("N\n\n1\n\nv y\n\n:eggs\n").err(), Some(RecipeError::InvalidQuantity));
    assert_eq!(load("N\n\n1\n\nv y\n\n1e3:g:flour\n").err(), Some(RecipeError::InvalidQuantity));
    assert_eq!(load("N\n\n1\n\nv y\n\n1 2:g:flour\n").err(), Some(RecipeError::InvalidQuantity));
}

#[test]
fn the_first_error_is_the_one_returned() {
    assert_eq!(
        load("N\n\nfor many\n\nyes\n\nsome:g:flour\n").err(),
        Some(RecipeError::InvalidServingCount)
    );
    assert_eq!(load("N\n\n2\n\nyes\n\nsome:g:flour\n").err(), Some(RecipeError::MalformedRecipe));
}

#[test]
fn loading_a_recipe_leaves_the_catalog_alone() {
    let mut service = RecipeService::new();
    service.recipe_repository.add_recipe(recipe("Soup", 1, 1, Vec::new()));
    assert!(service.load_recipe(FULL).is_ok());
    assert_eq!(service.recipe_repository.list_all_recipes_names(), vec!["Soup"]);
}

#[test]
fn reading_line_by_line() {
    let mut reader = RecipeReader::new();
    assert_eq!(reader.section, Section::Name);
    assert_eq!(reader.read_line(&chars_of("Soup")), Ok(()));
    assert_eq!(reader.read_line(&chars_of("")), Ok(()));
    assert_eq!(reader.section, Section::NbrPersons);
    assert!(reader.after_blank);
    assert_eq!(reader.read_line(&chars_of("   ")), Ok(()));
    assert_eq!(reader.section, Section::NbrPersons);
    assert_eq!(reader.read_line(&chars_of("# note")), Ok(()));
    assert!(reader.after_blank);
    assert_eq!(reader.read_line(&chars_of("for 12")), Ok(()));
    assert!(!reader.after_blank);
    assert_eq!(reader.recipe.name, "Soup");
    assert_eq!(reader.recipe.nbr_persons, 12);
    assert_eq!(reader.read_line(&chars_of("for twelve")), Err(RecipeError::InvalidServingCount));
}

#[test]
fn sections_follow_each_other() {
    assert_eq!(Section::Name.following(), Section::NbrPersons);
    assert_eq!(Section::NbrPersons.following(), Section::Veggie);
    assert_eq!(Section::Veggie.following(), Section::Ingredients);
    assert_eq!(Section::Ingredients.following(), Section::Steps);
    assert_eq!(Section::Steps.following(), Section::End);
    assert_eq!(Section::End.following(), Section::End);
}

#[test]
fn recipe_files_end_in_txt() {
    assert!(is_recipe_file("soup.txt"));
    assert!(is_recipe_file(".txt"));
    assert!(!is_recipe_file("soup.TXT"));
    assert!(!is_recipe_file("soup.txt~"));
    assert!(!is_recipe_file("soup"));
    assert!(!is_recipe_file(""));
}
