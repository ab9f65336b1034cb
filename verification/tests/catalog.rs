use menus_manager::error::RecipeError;
use menus_manager::model::recipe::Recipe;
use menus_manager::repository::recipe_repository::RecipeRepository;
use menus_manager::service::recipe_service::RecipeService;

fn named(name: &str, veggie: bool, base: u8) -> Recipe {
    Recipe {
        name: name.to_string(),
        nbr_persons: base,
        configured_nbr_persons: base,
        is_veggie: veggie,
        ingredients: Vec::new(),
        steps: Vec::new(),
    }
}

fn service() -> RecipeService {
    let mut s = RecipeService::new();
    s.recipe_repository.add_recipe(named("Pasta", true, 2));
    s.recipe_repository.add_recipe(named("pancakes", true, 4));
    s.recipe_repository.add_recipe(named("Steak", false, 1));
    s.recipe_repository.add_recipe(named("\u{c9}clair", true, 6));
    s.recipe_repository.add_recipe(named("Paella", false, 8));
    s
}

#[test]
fn an_empty_catalog() {
    let repo = RecipeRepository::new();
    assert!(repo.list_all_recipes_names().is_empty());
    assert_eq!(repo.get_recipe("Soup").err(), Some(RecipeError::RecipeNotFound));
}

#[test]
fn recipes_are_found_by_name() {
    let mut repo = RecipeRepository::new();
    repo.add_recipe(named("Soup", true, 2));
    repo.add_recipe(named("Stew", false, 4));
    assert_eq!(repo.list_all_recipes_names(), vec!["Soup", "Stew"]);
    let stew = repo.get_recipe("Stew").unwrap();
    assert_eq!(stew.name, "Stew");
    assert_eq!(stew.nbr_persons, 4);
    assert!(!stew.is_veggie);
    assert_eq!(repo.get_recipe("stew").err(), Some(RecipeError::RecipeNotFound));
    assert_eq!(repo.get_recipe("").err(), Some(RecipeError::RecipeNotFound));
}

#[test]
fn a_recipe_takes_the_place_of_its_namesake() {
    let mut repo = RecipeRepository::new();
    repo.add_recipe(named("Soup", true, 2));
    repo.add_recipe(named("Stew", false, 4));
    repo.add_recipe(named("Soup", false, 8));
    assert_eq!(repo.list_all_recipes_names(), vec!["Soup", "Stew"]);
    let soup = repo.get_recipe("Soup").unwrap();
    assert_eq!(soup.nbr_persons, 8);
    assert!(!soup.is_veggie);
    let copy = repo.clone();
    assert_eq!(copy.list_all_recipes_names(), vec!["Soup", "Stew"]);
}

#[test]
fn finding_through_the_service() {
    let s = service();
    assert_eq!(s.find_recipe_by_name(&"Steak".to_string()).unwrap().nbr_persons, 1);
    assert_eq!(
        s.find_recipe_by_name(&"Tofu".to_string()).err(),
        Some(RecipeError::RecipeNotFound)
    );
}

#[test]
fn listing_without_a_filter() {
    let s = service();
    assert_eq!(
        s.list_recipes(String::new(), false),
        vec!["Pasta", "pancakes", "Steak", "\u{c9}clair", "Paella"]
    );
    assert_eq!(s.list_recipes(String::new(), true), vec!["Pasta", "pancakes", "\u{c9}clair"]);
}

#[test]
fn the_filter_is_a_prefix_capitals_aside() {
    let s = service();
    assert_eq!(s.list_recipes("pa".to_string(), false), vec!["Pasta", "pancakes", "Paella"]);
    assert_eq!(s.list_recipes("PA".to_string(), false), vec!["Pasta", "pancakes", "Paella"]);
    assert_eq!(s.list_recipes("Pa".to_string(), true), vec!["Pasta", "pancakes"]);
    assert_eq!(s.list_recipes("\u{e9}c".to_string(), false), vec!["\u{c9}clair"]);
    assert_eq!(s.list_recipes("as".to_string(), false), Vec::<String>::new());
    assert_eq!(s.list_recipes("pastas".to_string(), false), Vec::<String>::new());
    assert_eq!(s.list_recipes("STEAK".to_string(), true), Vec::<String>::new());
}

#[test]
fn loading_files_into_the_catalog() {
    let mut s = RecipeService::new();
    let files = vec![
        ("soup.txt".to_string(), "Soup\n\nFor 2\n\nveggie: yes\n".to_string()),
        ("notes.md".to_string(), "not a recipe at all\n\nfor many\n".to_string()),
        ("bad.txt".to_string(), "Bad\n\nfor many\n".to_string()),
        ("stew.txt".to_string(), "Stew\n\nFor 4\n".to_string()),
        ("worse.txt".to_string(), "Worse\n\n2\n\nv y\n\nlots:of:it\n".to_string()),
        ("soup2.txt".to_string(), "Soup\n\nFor 6\n".to_string()),
    ];
    let failures = s.load_all_recipes(&files);
    assert_eq!(
        failures,
        vec![(2, RecipeError::InvalidServingCount), (4, RecipeError::InvalidQuantity)]
    );
    assert_eq!(s.recipe_repository.list_all_recipes_names(), vec!["Soup", "Stew"]);
    let soup = s.recipe_repository.get_recipe("Soup").unwrap();
    assert_eq!(soup.nbr_persons, 6);
    assert!(!soup.is_veggie);
}

#[test]
fn loading_no_files_changes_nothing() {
    let mut s = service();
    assert!(s.load_all_recipes(&Vec::new()).is_empty());
    assert_eq!(s.recipe_repository.list_all_recipes_names().len(), 5);
}
