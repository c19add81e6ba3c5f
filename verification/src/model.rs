//! The recipe catalog's data: recipes, their ingredients, and the shapes in
//! which they are listed and searched.

use vstd::prelude::*;

verus! {

/// How much of an ingredient a recipe takes, and in which unit.
#[derive(Debug, PartialEq, Eq, Clone, Copy, Structural)]
pub enum Quantity {
    Count(usize),
    Tsp(usize),
    Gram(usize),
    Ml(usize),
}

/// The name of the unit of a count.
pub const COUNT: &'static str = "count";

/// The name of the teaspoon.
pub const TSP: &'static str = "tsp";

/// The name of the gram.
pub const GRAM: &'static str = "gram";

/// The name of the millilitre.
pub const ML: &'static str = "ml";

/// Whether the quantity is in grams.
pub fn matches_gram(quantity: &Quantity) -> (r: bool)
    ensures
        r == (*quantity is Gram),
{
    match quantity {
        Quantity::Gram(_) => true,
        _ => false,
    }
}

/// Whether the quantity is a count.
pub fn matches_count(quantity: &Quantity) -> (r: bool)
    ensures
        r == (*quantity is Count),
{
    match quantity {
        Quantity::Count(_) => true,
        _ => false,
    }
}

/// Whether the quantity is in teaspoons.
pub fn matches_tsp(quantity: &Quantity) -> (r: bool)
    ensures
        r == (*quantity is Tsp),
{
    match quantity {
        Quantity::Tsp(_) => true,
        _ => false,
    }
}

/// Whether the quantity is in millilitres.
pub fn matches_ml(quantity: &Quantity) -> (r: bool)
    ensures
        r == (*quantity is Ml),
{
    match quantity {
        Quantity::Ml(_) => true,
        _ => false,
    }
}

impl Quantity {
    /// The name of this quantity's unit.
    pub open spec fn spec_label(self) -> Seq<char> {
        match self {
            Quantity::Count(_) => COUNT@,
            Quantity::Tsp(_) => TSP@,
            Quantity::Gram(_) => GRAM@,
            Quantity::Ml(_) => ML@,
        }
    }

    /// The amount, whatever the unit.
    pub open spec fn spec_value(self) -> usize {
        match self {
            Quantity::Count(n) => n,
            Quantity::Tsp(n) => n,
            Quantity::Gram(n) => n,
            Quantity::Ml(n) => n,
        }
    }

    /// The name of this quantity's unit.
    pub fn label(&self) -> (r: &'static str)
        ensures
            r@ == self.spec_label(),
    {
        match self {
            Quantity::Count(_) => COUNT,
            Quantity::Tsp(_) => TSP,
            Quantity::Gram(_) => GRAM,
            Quantity::Ml(_) => ML,
        }
    }

    /// The amount, whatever the unit.
    pub fn value(&self) -> (r: usize)
        ensures
            r == self.spec_value(),
    {
        match *self {
            Quantity::Count(count) => count,
            Quantity::Tsp(tsp) => tsp,
            Quantity::Gram(gram) => gram,
            Quantity::Ml(ml) => ml,
        }
    }
}

impl Default for Quantity {
    fn default() -> (r: Self)
        ensures
            r == Quantity::Count(0),
    {
        Quantity::Count(0)
    }
}

/// One line of a recipe's list of ingredients.
#[derive(Debug, Clone, PartialEq, Eq, Default)]
pub struct Ingredient {
    pub name: String,
    pub quantity: Quantity,
}

/// What an ingredient holds.
pub struct IngredientView {
    pub name: Seq<char>,
    pub quantity: Quantity,
}

impl View for Ingredient {
    type V = IngredientView;

    open spec fn view(&self) -> IngredientView {
        IngredientView { name: self.name@, quantity: self.quantity }
    }
}

/// A recipe without its key. Each component of the embedding is held as the
/// bit pattern of a 32-bit IEEE-754 number.
#[derive(Debug, Clone, PartialEq, Eq, Default)]
pub struct Recipe {
    pub name: String,
    pub ingredients: Vec<Ingredient>,
    pub description: String,
    pub liked: Option<bool>,
    pub embedding: Option<Vec<u32>>,
}

/// What a recipe holds.
pub struct RecipeView {
    pub name: Seq<char>,
    pub ingredients: Seq<IngredientView>,
    pub description: Seq<char>,
    pub liked: Option<bool>,
    pub embedding: Option<Seq<u32>>,
}

/// What an optional embedding holds.
pub open spec fn embedding_view(embedding: Option<Vec<u32>>) -> Option<Seq<u32>> {
    match embedding {
        Some(v) => Some(v@),
        None => None,
    }
}

impl View for Recipe {
    type V = RecipeView;

    open spec fn view(&self) -> RecipeView {
        RecipeView {
            name: self.name@,
            ingredients: self.ingredients@.map_values(|i: Ingredient| i@),
            description: self.description@,
            liked: self.liked,
            embedding: embedding_view(self.embedding),
        }
    }
}

/// A recipe with the key under which the store and both indexes hold it.
#[derive(Debug, Clone, PartialEq, Eq, Default)]
pub struct RecipeWithId {
    pub id: i64,
    pub data: Recipe,
}

/// What a recipe with its key holds.
pub struct RecipeWithIdView {
    pub id: i64,
    pub data: RecipeView,
}

impl View for RecipeWithId {
    type V = RecipeWithIdView;

    open spec fn view(&self) -> RecipeWithIdView {
        RecipeWithIdView { id: self.id, data: self.data@ }
    }
}

/// The views of a list of recipes, in the list's order.
pub open spec fn recipe_views(recipes: Seq<RecipeWithId>) -> Seq<RecipeWithIdView> {
    recipes.map_values(|r: RecipeWithId| r@)
}

/// One page of the catalog.
#[derive(Debug, Clone, PartialEq, Eq, Default)]
pub struct RecipesResponse {
    pub recipes: Vec<RecipeWithId>,
    pub total_pages: i64,
}

/// The text of a search request.
#[derive(Debug, Clone, PartialEq, Eq)]
pub struct SearchQuery {
    pub query: String,
}

/// What a search answers: the recipes found, best first.
#[derive(Debug, Clone)]
pub struct SearchResponse {
    pub results: Vec<SearchResult>,
}

/// One recipe that a search found.
#[derive(Debug, Clone)]
pub struct SearchResult {
    pub recipe: RecipeWithId,
}

} // verus!
