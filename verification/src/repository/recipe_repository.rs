//! The catalog: recipes by name, in the order their names first came.

use crate::error::RecipeError;
use crate::model::recipe::{text_views, Recipe, RecipeView};
use crate::search::{first_match, lemma_first_match_found, lemma_first_match_is_first};
use vstd::prelude::*;

verus! {

/// The recipes of the catalog. No two have the same name.
pub struct RecipeRepository {
    recipes: Vec<Recipe>,
}

/// The views of the recipes in `s`.
pub open spec fn recipe_views(s: Seq<Recipe>) -> Seq<RecipeView> {
    s.map_values(|r: Recipe| r@)
}

/// The place of the recipe named `name` among `entries`; their number
/// where none has that name.
pub open spec fn position_of(entries: Seq<RecipeView>, name: Seq<char>) -> int {
    first_match(entries, |r: RecipeView| r.name == name)
}

/// Whether no two of `entries` have the same name.
pub open spec fn distinct_names(entries: Seq<RecipeView>) -> bool {
    forall|i: int, j: int|
        0 <= i < j < entries.len() ==> (#[trigger] entries[i]).name != (#[trigger] entries[j]).name
}

/// The catalog `entries` after `recipe` is stored: it takes the place of
/// the recipe of the same name, or comes last.
pub open spec fn stored(entries: Seq<RecipeView>, recipe: RecipeView) -> Seq<RecipeView> {
    let at = position_of(entries, recipe.name);
    if at < entries.len() {
        entries.update(at, recipe)
    } else {
        entries.push(recipe)
    }
}

/// The names of `entries`, in order.
pub open spec fn names_of(entries: Seq<RecipeView>) -> Seq<Seq<char>> {
    entries.map_values(|r: RecipeView| r.name)
}

/// Storing a recipe keeps the names distinct.
pub proof fn lemma_stored_distinct(entries: Seq<RecipeView>, recipe: RecipeView)
    requires
        distinct_names(entries),
    ensures
        distinct_names(stored(entries, recipe)),
{
    let p = |r: RecipeView| r.name == recipe.name;
    lemma_first_match_is_first(entries, p);
    let at = position_of(entries, recipe.name);
    let after = stored(entries, recipe);
    assert forall|i: int, j: int| 0 <= i < j < after.len() implies (#[trigger] after[i]).name != (
    #[trigger] after[j]).name by {
        if at < entries.len() {
            assert(p(entries[at]));
            if i == at {
                assert(entries[i].name != entries[j].name);
            } else if j == at {
                assert(entries[i].name != entries[j].name);
            } else {
                assert(entries[i].name != entries[j].name);
            }
        } else {
            if j == entries.len() {
                assert(!p(entries[i]));
            } else {
                assert(entries[i].name != entries[j].name);
            }
        }
    }
}

impl View for RecipeRepository {
    type V = Seq<RecipeView>;

    closed spec fn view(&self) -> Seq<RecipeView> {
        recipe_views(self.recipes@)
    }
}

impl Clone for RecipeRepository {
    fn clone(&self) -> (r: Self)
        ensures
            r@ == self@,
    {
        proof {
            use_type_invariant(self);
        }
        let mut recipes: Vec<Recipe> = Vec::new();
        let mut i: usize = 0;
        while i < self.recipes.len()
            invariant
                i <= self.recipes@.len(),
                recipes@.len() == i,
                forall|k: int| 0 <= k < i ==> (#[trigger] recipes@[k])@ == self.recipes@[k]@,
            decreases self.recipes@.len() - i,
        {
            recipes.push(self.recipes[i].clone());
            i = i + 1;
        }
        assert(recipe_views(recipes@) =~= recipe_views(self.recipes@));
        RecipeRepository { recipes }
    }
}

impl RecipeRepository {
    #[verifier::type_invariant]
    spec fn names_are_distinct(self) -> bool {
        distinct_names(recipe_views(self.recipes@))
    }

    /// An empty catalog.
    pub fn new() -> (r: RecipeRepository)
        ensures
            r@ == Seq::<RecipeView>::empty(),
    {
        let r = RecipeRepository { recipes: Vec::new() };
        assert(r@ =~= Seq::<RecipeView>::empty());
        r
    }

    /// The place of the recipe named `name`; the number of recipes where
    /// none has that name.
    fn find(&self, name: &String) -> (at: usize)
        ensures
            at == position_of(self@, name@),
            at <= self.recipes@.len(),
            self.recipes@.len() == self@.len(),
            at < self@.len() ==> self.recipes@[at as int]@ == self@[at as int],
    {
        let mut i: usize = 0;
        while i < self.recipes.len()
            invariant
                i <= self.recipes@.len(),
                forall|k: int| 0 <= k < i ==> (#[trigger] self@[k]).name != name@,
            decreases self.recipes@.len() - i,
        {
            if self.recipes[i].name == *name {
                proof {
                    lemma_first_match_found(self@, |r: RecipeView| r.name == name@, i as int);
                }
                return i;
            }
            i = i + 1;
        }
        proof {
            lemma_first_match_found(self@, |r: RecipeView| r.name == name@, i as int);
        }
        i
    }

    /// Stores `recipe` under its name: in place of the recipe that had the
    /// name, or else after all the others.
    pub fn add_recipe(&mut self, recipe: Recipe)
        ensures
            final(self)@ == stored(old(self)@, recipe@),
    {
        proof {
            use_type_invariant(&*self);
            lemma_stored_distinct(self@, recipe@);
        }
        let at: usize = self.find(&recipe.name);
        let ghost before = self.recipes@;
        let ghost added = recipe@;
        let mut recipes: Vec<Recipe> = Vec::new();
        core::mem::swap(&mut recipes, &mut self.recipes);
        if at < recipes.len() {
            recipes.set(at, recipe);
            assert(recipe_views(recipes@) =~= recipe_views(before).update(at as int, added));
        } else {
            recipes.push(recipe);
            assert(recipe_views(recipes@) =~= recipe_views(before).push(added));
        }
        self.recipes = recipes;
    }

    /// The names of the recipes, in the order of the catalog. No name
    /// comes twice.
    pub fn list_all_recipes_names(&self) -> (names: Vec<String>)
        ensures
            text_views(names@) == names_of(self@),
            distinct_names(self@),
    {
        proof {
            use_type_invariant(self);
        }
        let mut names: Vec<String> = Vec::new();
        let mut i: usize = 0;
        while i < self.recipes.len()
            invariant
                i <= self.recipes@.len(),
                names@.len() == i,
                forall|k: int| 0 <= k < i ==> (#[trigger] names@[k])@ == self.recipes@[k].name@,
            decreases self.recipes@.len() - i,
        {
            names.push(self.recipes[i].name.clone());
            i = i + 1;
        }
        assert(text_views(names@) =~= names_of(self@));
        names
    }

    /// A copy of the recipe named `name`.
    pub fn get_recipe(&self, name: &str) -> (r: Result<Recipe, RecipeError>)
        ensures
            match r {
                Ok(recipe) => position_of(self@, name@) < self@.len() && recipe@
                    == self@[position_of(self@, name@)],
                Err(e) => position_of(self@, name@) == self@.len() && e
                    == RecipeError::RecipeNotFound,
            },
    {
        let wanted: String = name.to_owned();
        let at: usize = self.find(&wanted);
        if at < self.recipes.len() {
            Ok(self.recipes[at].clone())
        } else {
            Err(RecipeError::RecipeNotFound)
        }
    }
}

} // verus!
