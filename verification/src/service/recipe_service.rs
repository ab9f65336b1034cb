//! Reading recipes from text, keeping them, and gathering what to buy.
//!
//! A recipe is written as five sections in a fixed order: name, serving
//! count, vegetarian flag, ingredients, steps. A blank line ends a section;
//! several blank lines in a row end only one. A line whose first character
//! after leading whitespace is `#` is a comment and is passed over.

use crate::error::RecipeError;
use crate::model::ingredient::{ingredient_views, Ingredient, IngredientView, WHOLE_INGREDIENT};
use crate::model::quantity::{quantity_of, sum_micros, Quantity};
use crate::model::recipe::{empty_recipe, scaled_recipe, text_views, Recipe, RecipeView};
use crate::number::{parse_serving_count, serving_count_of};
use crate::repository::recipe_repository::{
    distinct_names, names_of, position_of, recipe_views, stored, RecipeRepository,
};
use crate::search::{first_match, lemma_first_match_found, lemma_first_match_is_first};
use crate::text::{
    chars_of, ends_with, has_prefix, has_suffix, lowercase, split, split_on, split_words,
    starts_with, string_of, text_is, trim, trimmed, views, words,
};
use vstd::prelude::*;

verus! {

/// The section of a recipe text that a line belongs to.
#[derive(Clone, Copy, Debug, PartialEq, Eq, Structural)]
pub enum Section {
    Name,
    NbrPersons,
    Veggie,
    Ingredients,
    Steps,
    /// Past the last section: nothing more is expected.
    End,
}

impl Section {
    /// The section after this one.
    pub open spec fn next(self) -> Section {
        match self {
            Section::Name => Section::NbrPersons,
            Section::NbrPersons => Section::Veggie,
            Section::Veggie => Section::Ingredients,
            Section::Ingredients => Section::Steps,
            Section::Steps => Section::End,
            Section::End => Section::End,
        }
    }

    /// The section after this one.
    pub fn following(self) -> (r: Section)
        ensures
            r == self.next(),
    {
        match self {
            Section::Name => Section::NbrPersons,
            Section::NbrPersons => Section::Veggie,
            Section::Veggie => Section::Ingredients,
            Section::Ingredients => Section::Steps,
            Section::Steps => Section::End,
            Section::End => Section::End,
        }
    }
}

/// Where the reading of a recipe text stands after some of its lines.
pub struct RecipeReader {
    /// The section the next line belongs to.
    pub section: Section,
    /// Whether the last line that was not a comment was blank.
    pub after_blank: bool,
    /// What has been read so far.
    pub recipe: Recipe,
}

/// The state of a [`RecipeReader`] as mathematical values.
pub struct ReaderView {
    pub section: Section,
    pub after_blank: bool,
    pub recipe: RecipeView,
}

impl View for RecipeReader {
    type V = ReaderView;

    open spec fn view(&self) -> ReaderView {
        ReaderView { section: self.section, after_blank: self.after_blank, recipe: self.recipe@ }
    }
}

/// The state before the first line: in the name section, with an empty
/// recipe for one serving.
pub open spec fn initial_reader() -> ReaderView {
    ReaderView { section: Section::Name, after_blank: false, recipe: empty_recipe() }
}

/// Whether the word `w` says that a recipe is vegetarian.
pub open spec fn means_true(w: Seq<char>) -> bool {
    w == "true"@ || w == "yes"@ || w == "oui"@ || w == "y"@ || w == "o"@ || w == "t"@
}

/// Whether the word `w` says that a recipe is not vegetarian.
pub open spec fn means_false(w: Seq<char>) -> bool {
    w == "false"@ || w == "no"@ || w == "non"@ || w == "n"@ || w == "f"@
}

/// The recipe `r` after the line `line` of its name section: the first
/// such line is the name, as it stands; a recipe that has its name keeps it.
pub open spec fn with_name(r: RecipeView, line: Seq<char>) -> RecipeView {
    if r.name.len() == 0 {
        RecipeView { name: line, ..r }
    } else {
        r
    }
}

/// The recipe `r` after its serving-count line `t`: the last word of the
/// line is the count, both as written and as asked for.
pub open spec fn with_servings(r: RecipeView, t: Seq<char>) -> Result<RecipeView, RecipeError> {
    if words(t).len() == 0 {
        Err(RecipeError::InvalidServingCount)
    } else {
        match serving_count_of(words(t).last()) {
            Some(n) => Ok(
                RecipeView { nbr_persons: n as int, configured_nbr_persons: n as int, ..r },
            ),
            None => Err(RecipeError::InvalidServingCount),
        }
    }
}

/// The recipe `r` after its vegetarian-flag line `t`: the second word of
/// the line sets the flag if it is a known yes or no, and changes nothing
/// otherwise. A line of one word has no flag to read.
pub open spec fn with_flag(r: RecipeView, t: Seq<char>) -> Result<RecipeView, RecipeError> {
    if words(t).len() < 2 {
        Err(RecipeError::MalformedRecipe)
    } else if means_true(words(t)[1]) {
        Ok(RecipeView { is_veggie: true, ..r })
    } else if means_false(words(t)[1]) {
        Ok(RecipeView { is_veggie: false, ..r })
    } else {
        Ok(r)
    }
}

/// The ingredient that the fields of a line spell, the quantity first and
/// the name last, each without the whitespace around it. Two fields name an
/// ingredient that is counted, three give its unit in the middle.
pub open spec fn ingredient_of(fields: Seq<Seq<char>>) -> Result<IngredientView, RecipeError>
    recommends
        fields.len() == 2 || fields.len() == 3,
{
    match quantity_of(trim(fields[0])) {
        Some(q) => Ok(
            IngredientView {
                name: trim(fields.last()),
                unit: if fields.len() == 3 {
                    trim(fields[1])
                } else {
                    WHOLE_INGREDIENT@
                },
                micros: q.micros as int,
            },
        ),
        None => Err(RecipeError::InvalidQuantity),
    }
}

/// The recipe `r` after its ingredient line `t`, whose fields are set apart
/// by colons. A line of two or three fields adds an ingredient; any other
/// line is passed over.
pub open spec fn with_ingredient(r: RecipeView, t: Seq<char>) -> Result<RecipeView, RecipeError> {
    let fields = split(t, ':');
    if fields.len() == 2 || fields.len() == 3 {
        match ingredient_of(fields) {
            Ok(i) => Ok(RecipeView { ingredients: r.ingredients.push(i), ..r }),
            Err(e) => Err(e),
        }
    } else {
        Ok(r)
    }
}

/// The recipe `r` after the line `line` of the section `section`, where the
/// line is neither blank nor a comment.
pub open spec fn with_line(r: RecipeView, section: Section, line: Seq<char>) -> Result<
    RecipeView,
    RecipeError,
> {
    match section {
        Section::Name => Ok(with_name(r, line)),
        Section::NbrPersons => with_servings(r, trim(line)),
        Section::Veggie => with_flag(r, trim(line)),
        Section::Ingredients => with_ingredient(r, trim(line)),
        Section::Steps => Ok(RecipeView { steps: r.steps.push(trim(line)), ..r }),
        Section::End => Err(RecipeError::MalformedRecipe),
    }
}

/// The state after one more line. A blank line ends the section, unless the
/// line before was blank too; a comment changes nothing; any other line is
/// read as its section says.
pub open spec fn after_line(st: ReaderView, line: Seq<char>) -> Result<ReaderView, RecipeError> {
    let t = trim(line);
    if t.len() == 0 {
        Ok(
            ReaderView {
                section: if st.after_blank {
                    st.section
                } else {
                    st.section.next()
                },
                after_blank: true,
                ..st
            },
        )
    } else if t[0] == '#' {
        Ok(st)
    } else {
        match with_line(st.recipe, st.section, line) {
            Ok(r) => Ok(ReaderView { after_blank: false, recipe: r, ..st }),
            Err(e) => Err(e),
        }
    }
}

/// The state after the lines `lines`, read in order from the state `st`;
/// the first error ends the reading.
pub open spec fn after_lines(st: ReaderView, lines: Seq<Seq<char>>) -> Result<
    ReaderView,
    RecipeError,
>
    decreases lines.len(),
{
    if lines.len() == 0 {
        Ok(st)
    } else {
        match after_lines(st, lines.drop_last()) {
            Ok(before) => after_line(before, lines.last()),
            Err(e) => Err(e),
        }
    }
}

/// The recipe that the text `text` spells, or why it spells none.
pub open spec fn parsed_recipe(text: Seq<char>) -> Result<RecipeView, RecipeError> {
    match after_lines(initial_reader(), split(text, '\n')) {
        Ok(st) => Ok(st.recipe),
        Err(e) => Err(e),
    }
}

/// An error among the first lines is the error of all the lines.
pub proof fn lemma_error_stays(st: ReaderView, lines: Seq<Seq<char>>, n: int)
    requires
        0 <= n <= lines.len(),
        after_lines(st, lines.take(n)) is Err,
    ensures
        after_lines(st, lines) == after_lines(st, lines.take(n)),
    decreases lines.len() - n,
{
    if n < lines.len() {
        assert(lines.take(n + 1).drop_last() == lines.take(n));
        lemma_error_stays(st, lines, n + 1);
    } else {
        assert(lines.take(n) == lines);
    }
}

impl RecipeReader {
    /// A reader before the first line.
    pub fn new() -> (r: RecipeReader)
        ensures
            r@ == initial_reader(),
    {
        RecipeReader { section: Section::Name, after_blank: false, recipe: Recipe::new() }
    }

    /// Reads the serving-count line `t`.
    fn read_servings(&mut self, t: &[char]) -> (r: Result<(), RecipeError>)
        ensures
            match with_servings(old(self).recipe@, t@) {
                Ok(recipe) => r is Ok && final(self)@ == (ReaderView { recipe, ..old(self)@ }),
                Err(e) => r == Err::<(), RecipeError>(e),
            },
    {
        let parts: Vec<&[char]> = split_words(t);
        assert(views(parts@).len() == parts@.len());
        if parts.len() == 0 {
            return Err(RecipeError::InvalidServingCount);
        }
        let last: &[char] = parts[parts.len() - 1];
        assert(last@ == views(parts@).last());
        match parse_serving_count(last) {
            Some(n) => {
                self.recipe.nbr_persons = n;
                self.recipe.configured_nbr_persons = n;
                Ok(())
            },
            None => Err(RecipeError::InvalidServingCount),
        }
    }

    /// Reads the vegetarian-flag line `t`.
    fn read_flag(&mut self, t: &[char]) -> (r: Result<(), RecipeError>)
        ensures
            match with_flag(old(self).recipe@, t@) {
                Ok(recipe) => r is Ok && final(self)@ == (ReaderView { recipe, ..old(self)@ }),
                Err(e) => r == Err::<(), RecipeError>(e),
            },
    {
        let parts: Vec<&[char]> = split_words(t);
        assert(views(parts@).len() == parts@.len());
        if parts.len() < 2 {
            return Err(RecipeError::MalformedRecipe);
        }
        let word: &[char] = parts[1];
        assert(word@ == views(parts@)[1]);
        if text_is(word, "true") || text_is(word, "yes") || text_is(word, "oui") || text_is(
            word,
            "y",
        ) || text_is(word, "o") || text_is(word, "t") {
            self.recipe.is_veggie = true;
        } else if text_is(word, "false") || text_is(word, "no") || text_is(word, "non") || text_is(
            word,
            "n",
        ) || text_is(word, "f") {
            self.recipe.is_veggie = false;
        }
        Ok(())
    }

    /// Reads the ingredient line `t`.
    fn read_ingredient(&mut self, t: &[char]) -> (r: Result<(), RecipeError>)
        ensures
            match with_ingredient(old(self).recipe@, t@) {
                Ok(recipe) => r is Ok && final(self)@ == (ReaderView { recipe, ..old(self)@ }),
                Err(e) => r == Err::<(), RecipeError>(e),
            },
    {
        let fields: Vec<&[char]> = split_on(t, ':');
        assert(views(fields@).len() == fields@.len());
        if fields.len() != 2 && fields.len() != 3 {
            return Ok(());
        }
        assert(fields@[0]@ == views(fields@)[0]);
        assert(fields@[1]@ == views(fields@)[1]);
        assert(fields@[fields@.len() - 1]@ == views(fields@).last());
        let quantity: Quantity = match Quantity::parse(trimmed(fields[0])) {
            Some(q) => q,
            None => {
                return Err(RecipeError::InvalidQuantity);
            },
        };
        let unit: String = if fields.len() == 3 {
            string_of(trimmed(fields[1]))
        } else {
            WHOLE_INGREDIENT.to_owned()
        };
        let name: String = string_of(trimmed(fields[fields.len() - 1]));
        self.recipe.add_ingredient(Ingredient { name, unit, quantity });
        Ok(())
    }

    /// Reads one more line of the text.
    pub fn read_line(&mut self, line: &[char]) -> (r: Result<(), RecipeError>)
        ensures
            match after_line(old(self)@, line@) {
                Ok(st) => r is Ok && final(self)@ == st,
                Err(e) => r == Err::<(), RecipeError>(e),
            },
    {
        let t: &[char] = trimmed(line);
        if t.len() == 0 {
            if !self.after_blank {
                self.section = self.section.following();
            }
            self.after_blank = true;
            return Ok(());
        }
        if t[0] == '#' {
            return Ok(());
        }
        let done: Result<(), RecipeError> = match self.section {
            Section::Name => {
                if self.recipe.name.as_str().is_empty() {
                    self.recipe.set_name(string_of(line));
                }
                Ok(())
            },
            Section::NbrPersons => self.read_servings(t),
            Section::Veggie => self.read_flag(t),
            Section::Ingredients => self.read_ingredient(t),
            Section::Steps => {
                self.recipe.add_step(string_of(t));
                Ok(())
            },
            Section::End => Err(RecipeError::MalformedRecipe),
        };
        if done.is_ok() {
            self.after_blank = false;
        }
        done
    }
}

/// Whether two ingredients are the same line of a shopping list: same
/// name and same unit, letter for letter.
pub open spec fn same_key(a: IngredientView, b: IngredientView) -> bool {
    a.name == b.name && a.unit == b.unit
}

/// The place in `list` of the ingredient with the name and unit of `i`; the
/// length of `list` where there is none.
pub open spec fn key_position(list: Seq<IngredientView>, i: IngredientView) -> int {
    first_match(list, |e: IngredientView| same_key(e, i))
}

/// Whether no two ingredients of `list` have the same name and unit.
pub open spec fn distinct_keys(list: Seq<IngredientView>) -> bool {
    forall|i: int, j: int|
        0 <= i < j < list.len() ==> !same_key(#[trigger] list[i], #[trigger] list[j])
}

/// The shopping list `list` with the ingredient `i` merged in: its quantity
/// is added to the entry of the same name and unit, which stays where it
/// is; without such an entry, `i` comes last.
pub open spec fn merged(list: Seq<IngredientView>, i: IngredientView) -> Seq<IngredientView> {
    let at = key_position(list, i);
    if at < list.len() {
        list.update(at, IngredientView { micros: sum_micros(list[at].micros, i.micros), ..list[at] })
    } else {
        list.push(i)
    }
}

/// The shopping list `list` with the ingredients `more` merged in, one
/// after the other.
pub open spec fn merged_all(list: Seq<IngredientView>, more: Seq<IngredientView>) -> Seq<
    IngredientView,
>
    decreases more.len(),
{
    if more.len() == 0 {
        list
    } else {
        merged(merged_all(list, more.drop_last()), more.last())
    }
}

/// Whether every recipe of `recipes` is written for at least one serving.
pub open spec fn all_scalable(recipes: Seq<RecipeView>) -> bool {
    forall|i: int| 0 <= i < recipes.len() ==> (#[trigger] recipes[i]).nbr_persons >= 1
}

/// The shopping list for `recipes`: the ingredients of each recipe in turn,
/// scaled to the servings asked for, merged by name and unit.
pub open spec fn gathered(recipes: Seq<RecipeView>) -> Seq<IngredientView>
    decreases recipes.len(),
{
    if recipes.len() == 0 {
        Seq::<IngredientView>::empty()
    } else {
        merged_all(gathered(recipes.drop_last()), scaled_recipe(recipes.last()).ingredients)
    }
}

/// Merging keeps a shopping list free of doubles.
pub proof fn lemma_merged_distinct(list: Seq<IngredientView>, i: IngredientView)
    requires
        distinct_keys(list),
    ensures
        distinct_keys(merged(list, i)),
{
    let p = |e: IngredientView| same_key(e, i);
    lemma_first_match_is_first(list, p);
    let at = key_position(list, i);
    let after = merged(list, i);
    assert forall|a: int, b: int| 0 <= a < b < after.len() implies !same_key(
        #[trigger] after[a],
        #[trigger] after[b],
    ) by {
        if at < list.len() {
            assert(!same_key(list[a], list[b]));
        } else {
            if b == list.len() {
                assert(!p(list[a]));
            } else {
                assert(!same_key(list[a], list[b]));
            }
        }
    }
}

/// Merging several ingredients keeps a shopping list free of doubles.
pub proof fn lemma_merged_all_distinct(list: Seq<IngredientView>, more: Seq<IngredientView>)
    requires
        distinct_keys(list),
    ensures
        distinct_keys(merged_all(list, more)),
    decreases more.len(),
{
    if more.len() > 0 {
        lemma_merged_all_distinct(list, more.drop_last());
        lemma_merged_distinct(merged_all(list, more.drop_last()), more.last());
    }
}

/// No name and unit come twice in a shopping list.
pub proof fn lemma_gathered_distinct(recipes: Seq<RecipeView>)
    ensures
        distinct_keys(gathered(recipes)),
    decreases recipes.len(),
{
    if recipes.len() > 0 {
        lemma_gathered_distinct(recipes.drop_last());
        lemma_merged_all_distinct(
            gathered(recipes.drop_last()),
            scaled_recipe(recipes.last()).ingredients,
        );
    }
}

/// Merges `ingredient` into the shopping list `list`.
pub fn merge_ingredient(list: &mut Vec<Ingredient>, ingredient: &Ingredient)
    ensures
        ingredient_views(final(list)@) == merged(ingredient_views(old(list)@), ingredient@),
{
    let ghost before = ingredient_views(list@);
    let ghost p = |e: IngredientView| same_key(e, ingredient@);
    let mut at: usize = 0;
    while at < list.len() && !list[at].same_key(ingredient)
        invariant
            at <= list@.len(),
            list@ == old(list)@,
            forall|k: int| 0 <= k < at ==> !same_key(#[trigger] before[k], ingredient@),
            before == ingredient_views(list@),
        decreases list@.len() - at,
    {
        at = at + 1;
    }
    proof {
        lemma_first_match_found(before, p, at as int);
    }
    if at < list.len() {
        let entry: &Ingredient = &list[at];
        let sum: Ingredient = Ingredient {
            name: entry.name.clone(),
            unit: entry.unit.clone(),
            quantity: entry.quantity.plus(ingredient.quantity),
        };
        list.set(at, sum);
        assert(ingredient_views(list@) =~= merged(before, ingredient@));
    } else {
        list.push(ingredient.clone());
        assert(ingredient_views(list@) =~= merged(before, ingredient@));
    }
}

/// Whether the catalog entry `r` is listed under the filter `filter`: it is
/// vegetarian where only such are asked for, and its name begins with the
/// filter, capitals aside. An empty filter lets every name through.
pub open spec fn shown(r: RecipeView, filter: Seq<char>, only_veggies: bool) -> bool {
    &&& only_veggies ==> r.is_veggie
    &&& filter.len() == 0 || has_prefix(lowercase(r.name), lowercase(filter))
}

/// The names of the entries that are listed under the filter, in order.
pub open spec fn listed(entries: Seq<RecipeView>, filter: Seq<char>, only_veggies: bool) -> Seq<
    Seq<char>,
>
    decreases entries.len(),
{
    if entries.len() == 0 {
        Seq::<Seq<char>>::empty()
    } else {
        let before = listed(entries.drop_last(), filter, only_veggies);
        if shown(entries.last(), filter, only_veggies) {
            before.push(entries.last().name)
        } else {
            before
        }
    }
}

/// Whether a file of this name holds a recipe: the name ends in `.txt`.
pub open spec fn is_recipe_file_name(name: Seq<char>) -> bool {
    has_suffix(name, ".txt"@)
}

/// Whether a file of this name holds a recipe: the name ends in `.txt`.
pub fn is_recipe_file(name: &str) -> (r: bool)
    ensures
        r == is_recipe_file_name(name@),
{
    let n: Vec<char> = chars_of(name);
    let suffix: Vec<char> = chars_of(".txt");
    ends_with(n.as_slice(), suffix.as_slice())
}

/// The name and the text of each file in `files`.
pub open spec fn file_views(files: Seq<(String, String)>) -> Seq<(Seq<char>, Seq<char>)> {
    files.map_values(|f: (String, String)| (f.0@, f.1@))
}

/// The catalog `entries` after the files `files` are loaded, in order: each
/// recipe file whose text spells a recipe is stored under the recipe's
/// name; the other files change nothing.
pub open spec fn loaded(entries: Seq<RecipeView>, files: Seq<(Seq<char>, Seq<char>)>) -> Seq<
    RecipeView,
>
    decreases files.len(),
{
    if files.len() == 0 {
        entries
    } else {
        let before = loaded(entries, files.drop_last());
        let file = files.last();
        if is_recipe_file_name(file.0) {
            match parsed_recipe(file.1) {
                Ok(r) => stored(before, r),
                Err(_) => before,
            }
        } else {
            before
        }
    }
}

/// The recipe files of `files` whose text spells no recipe: the place of
/// each among `files`, with the reason, in order.
pub open spec fn rejected(files: Seq<(Seq<char>, Seq<char>)>) -> Seq<(usize, RecipeError)>
    decreases files.len(),
{
    if files.len() == 0 {
        Seq::<(usize, RecipeError)>::empty()
    } else {
        let before = rejected(files.drop_last());
        let file = files.last();
        if is_recipe_file_name(file.0) {
            match parsed_recipe(file.1) {
                Ok(_) => before,
                Err(e) => before.push(((files.len() - 1) as usize, e)),
            }
        } else {
            before
        }
    }
}

/// The catalog and what is done with it.
pub struct RecipeService {
    pub recipe_repository: RecipeRepository,
}

impl RecipeService {
    /// A service with an empty catalog.
    pub fn new() -> (r: RecipeService)
        ensures
            r.recipe_repository@ == Seq::<RecipeView>::empty(),
    {
        RecipeService { recipe_repository: RecipeRepository::new() }
    }

    /// The shopping list for `all_recipes`: the ingredients of each recipe
    /// in turn, scaled to the servings asked for, with the quantities of
    /// equal name and unit added up. An ingredient stands where its name
    /// and unit first came. Fails where a recipe is written for zero
    /// servings.
    pub fn gather_all_ingredients_from_recipes_vector(&self, all_recipes: &Vec<Recipe>) -> (r:
        Result<Vec<Ingredient>, RecipeError>)
        ensures
            match r {
                Ok(list) => {
                    &&& all_scalable(recipe_views(all_recipes@))
                    &&& ingredient_views(list@) == gathered(recipe_views(all_recipes@))
                    &&& distinct_keys(ingredient_views(list@))
                },
                Err(e) => {
                    &&& !all_scalable(recipe_views(all_recipes@))
                    &&& e == RecipeError::DivisionByZeroServings
                },
            },
            all_recipes@.len() == 0 ==> r is Ok && r->Ok_0@.len() == 0,
    {
        let ghost recipes = recipe_views(all_recipes@);
        let mut ingredients: Vec<Ingredient> = Vec::new();
        let mut i: usize = 0;
        assert(recipes.take(0) =~= Seq::<RecipeView>::empty());
        assert(ingredient_views(ingredients@) =~= gathered(recipes.take(0)));
        while i < all_recipes.len()
            invariant
                i <= all_recipes@.len(),
                recipes == recipe_views(all_recipes@),
                all_scalable(recipes.take(i as int)),
                ingredient_views(ingredients@) == gathered(recipes.take(i as int)),
                all_recipes@.len() == 0 ==> ingredients@.len() == 0,
            decreases all_recipes@.len() - i,
        {
            let mut recipe: Recipe = all_recipes[i].clone();
            assert(recipe@ == recipes[i as int]);
            match recipe.sync_with_configured_nbr_persons() {
                Ok(()) => {},
                Err(e) => {
                    assert(recipes[i as int].nbr_persons == 0);
                    return Err(e);
                },
            }
            let ghost start = gathered(recipes.take(i as int));
            let ghost more = ingredient_views(recipe.ingredients@);
            assert(more == scaled_recipe(recipes[i as int]).ingredients);
            let mut j: usize = 0;
            assert(more.take(0) =~= Seq::<IngredientView>::empty());
            while j < recipe.ingredients.len()
                invariant
                    j <= recipe.ingredients@.len(),
                    more == ingredient_views(recipe.ingredients@),
                    ingredient_views(ingredients@) == merged_all(start, more.take(j as int)),
                decreases recipe.ingredients@.len() - j,
            {
                assert(more.take(j + 1).drop_last() =~= more.take(j as int));
                assert(more.take(j + 1).last() == recipe.ingredients@[j as int]@);
                merge_ingredient(&mut ingredients, &recipe.ingredients[j]);
                j = j + 1;
            }
            assert(more.take(j as int) =~= more);
            assert(recipes.take(i + 1).drop_last() =~= recipes.take(i as int));
            assert(recipes.take(i + 1).last() == recipes[i as int]);
            assert forall|k: int| 0 <= k < i + 1 implies (#[trigger] recipes.take(
                i + 1,
            )[k]).nbr_persons >= 1 by {
                if k < i {
                    assert(recipes.take(i as int)[k] == recipes.take(i + 1)[k]);
                }
            }
            i = i + 1;
        }
        assert(recipes.take(i as int) =~= recipes);
        proof {
            lemma_gathered_distinct(recipes);
        }
        Ok(ingredients)
    }

    /// The recipe that the text `content` spells.
    ///
    /// The first line that is neither blank nor a comment is the name, as
    /// it stands; further lines before the first blank line are passed
    /// over. The last word of the serving-count line is the count, a
    /// whole number from 1 to 255. The second word of the flag line says
    /// whether the recipe is vegetarian. Each ingredient line reads
    /// `quantity : unit : name` or `quantity : name`. Each line of the last
    /// section is one step. A text that ends early leaves the rest of the
    /// recipe empty. The catalog is not changed.
    pub fn load_recipe(&mut self, content: &str) -> (r: Result<Recipe, RecipeError>)
        ensures
            match r {
                Ok(recipe) => parsed_recipe(content@) == Ok::<RecipeView, RecipeError>(recipe@),
                Err(e) => parsed_recipe(content@) == Err::<RecipeView, RecipeError>(e),
            },
            final(self).recipe_repository@ == old(self).recipe_repository@,
    {
        let text: Vec<char> = chars_of(content);
        let lines: Vec<&[char]> = split_on(text.as_slice(), '\n');
        let ghost all = split(content@, '\n');
        assert(views(lines@).len() == lines@.len());
        let mut reader: RecipeReader = RecipeReader::new();
        let mut i: usize = 0;
        assert(all.take(0) == Seq::<Seq<char>>::empty());
        while i < lines.len()
            invariant
                i <= lines@.len(),
                views(lines@) == all,
                all == split(content@, '\n'),
                after_lines(initial_reader(), all.take(i as int)) == Ok::<ReaderView, RecipeError>(
                    reader@,
                ),
            decreases lines@.len() - i,
        {
            assert(all.take(i + 1).drop_last() == all.take(i as int));
            assert(all.take(i + 1).last() == lines@[i as int]@);
            match reader.read_line(lines[i]) {
                Ok(()) => {},
                Err(e) => {
                    proof {
                        assert(after_lines(initial_reader(), all.take(i + 1)) == Err::<
                            ReaderView,
                            RecipeError,
                        >(e));
                        lemma_error_stays(initial_reader(), all, i + 1);
                    }
                    return Err(e);
                },
            }
            i = i + 1;
        }
        assert(all.take(i as int) == all);
        Ok(reader.recipe)
    }

    /// Loads the recipe files among `files`, each given by its name and its
    /// text, into the catalog. A file whose name does not end in `.txt` is
    /// passed over. A recipe file whose text spells no recipe is left out
    /// and reported, by its place in `files` and the reason; the files
    /// after it are loaded all the same.
    pub fn load_all_recipes(&mut self, files: &Vec<(String, String)>) -> (failures: Vec<
        (usize, RecipeError),
    >)
        ensures
            final(self).recipe_repository@ == loaded(
                old(self).recipe_repository@,
                file_views(files@),
            ),
            failures@ == rejected(file_views(files@)),
    {
        let ghost all = file_views(files@);
        let ghost start = self.recipe_repository@;
        let mut failures: Vec<(usize, RecipeError)> = Vec::new();
        let mut i: usize = 0;
        assert(all.take(0) =~= Seq::<(Seq<char>, Seq<char>)>::empty());
        while i < files.len()
            invariant
                i <= files@.len(),
                all == file_views(files@),
                self.recipe_repository@ == loaded(start, all.take(i as int)),
                failures@ == rejected(all.take(i as int)),
            decreases files@.len() - i,
        {
            assert(all.take(i + 1).drop_last() =~= all.take(i as int));
            assert(all.take(i + 1).last() == (files@[i as int].0@, files@[i as int].1@));
            let file: &(String, String) = &files[i];
            if is_recipe_file(file.0.as_str()) {
                match self.load_recipe(file.1.as_str()) {
                    Ok(recipe) => {
                        self.recipe_repository.add_recipe(recipe);
                    },
                    Err(e) => {
                        failures.push((i, e));
                    },
                }
            }
            i = i + 1;
        }
        assert(all.take(i as int) =~= all);
        failures
    }

    /// A copy of the recipe named `recipe_name`.
    pub fn find_recipe_by_name(&self, recipe_name: &String) -> (r: Result<Recipe, RecipeError>)
        ensures
            match r {
                Ok(recipe) => position_of(self.recipe_repository@, recipe_name@)
                    < self.recipe_repository@.len() && recipe@
                    == self.recipe_repository@[position_of(self.recipe_repository@, recipe_name@)],
                Err(e) => position_of(self.recipe_repository@, recipe_name@)
                    == self.recipe_repository@.len() && e == RecipeError::RecipeNotFound,
            },
    {
        self.recipe_repository.get_recipe(recipe_name.as_str())
    }

    /// The names of the recipes to choose from, in the order of the
    /// catalog: those that begin with `filter`, capitals aside, and, where
    /// `only_veggies` is set, are vegetarian.
    pub fn list_recipes(&self, filter: String, only_veggies: bool) -> (names: Vec<String>)
        ensures
            text_views(names@) == listed(self.recipe_repository@, filter@, only_veggies),
    {
        let all_names: Vec<String> = self.recipe_repository.list_all_recipes_names();
        let ghost entries = self.recipe_repository@;
        let filtering: bool = filter.as_str().unicode_len() > 0;
        let wanted: Vec<char> = chars_of(filter.to_lowercase().as_str());
        let mut names: Vec<String> = Vec::new();
        let mut i: usize = 0;
        assert(entries.take(0) =~= Seq::<RecipeView>::empty());
        assert(text_views(names@) =~= listed(entries.take(0), filter@, only_veggies));
        assert(text_views(all_names@).len() == all_names@.len());
        while i < all_names.len()
            invariant
                i <= all_names@.len(),
                entries == self.recipe_repository@,
                text_views(all_names@) == names_of(entries),
                all_names@.len() == entries.len(),
                distinct_names(entries),
                filtering == (filter@.len() > 0),
                wanted@ == lowercase(filter@),
                text_views(names@) == listed(entries.take(i as int), filter@, only_veggies),
            decreases all_names@.len() - i,
        {
            let name: &String = &all_names[i];
            assert(name@ == text_views(all_names@)[i as int]);
            assert(name@ == entries[i as int].name);
            assert(entries.take(i + 1).drop_last() =~= entries.take(i as int));
            assert(entries.take(i + 1).last() == entries[i as int]);
            proof {
                lemma_first_match_found(entries, |r: RecipeView| r.name == name@, i as int);
            }
            let veggie: bool = match self.recipe_repository.get_recipe(name.as_str()) {
                Ok(recipe) => recipe.is_veggie,
                Err(_) => false,
            };
            let lower: Vec<char> = chars_of(name.to_lowercase().as_str());
            let ghost before = names@;
            if (!only_veggies || veggie) && (!filtering || starts_with(
                lower.as_slice(),
                wanted.as_slice(),
            )) {
                names.push(name.clone());
                assert(text_views(names@) =~= text_views(before).push(name@));
            }
            i = i + 1;
        }
        assert(entries.take(i as int) =~= entries);
        names
    }
}

} // verus!
